//! Canonical JSON (RFC 8785 style) building blocks for the records whose
//! digests this crate computes: escaped strings, unsigned integers, UUIDs.
//!
//! Records are written field by field in ascending key order, so the text of
//! each record is fixed by its values alone.
use vstd::prelude::*;

use crate::digest;
use crate::text::{chars_of, push_char, push_str};

verus! {

/// JSON escape of one character, as RFC 8785 serialisation writes it.
pub open spec fn escape_char(c: char) -> Seq<char> {
    let u = c as u32;
    if c == '"' {
        seq!['\\', '"']
    } else if c == '\\' {
        seq!['\\', '\\']
    } else if u == 8 {
        seq!['\\', 'b']
    } else if u == 9 {
        seq!['\\', 't']
    } else if u == 10 {
        seq!['\\', 'n']
    } else if u == 12 {
        seq!['\\', 'f']
    } else if u == 13 {
        seq!['\\', 'r']
    } else if u < 0x20 {
        seq!['\\', 'u', '0', '0', digest::hex_digit((u / 16) as u8), digest::hex_digit((u % 16) as u8)]
    } else {
        seq![c]
    }
}

pub open spec fn escaped(s: Seq<char>) -> Seq<char>
    decreases s.len(),
{
    if s.len() == 0 {
        Seq::empty()
    } else {
        escaped(s.drop_last()) + escape_char(s.last())
    }
}

/// A JSON string literal holding `s`.
pub open spec fn json_string(s: Seq<char>) -> Seq<char> {
    seq!['"'] + escaped(s) + seq!['"']
}

pub open spec fn json_null() -> Seq<char> {
    seq!['n', 'u', 'l', 'l']
}

pub open spec fn json_bool(b: bool) -> Seq<char> {
    if b {
        seq!['t', 'r', 'u', 'e']
    } else {
        seq!['f', 'a', 'l', 's', 'e']
    }
}

pub open spec fn json_opt_string(s: Option<Seq<char>>) -> Seq<char> {
    match s {
        Some(v) => json_string(v),
        None => json_null(),
    }
}

pub open spec fn digit_char(d: nat) -> char {
    (('0' as u32) + d) as char
}

/// Decimal digits of a natural number, without leading zeros.
pub open spec fn decimal(n: nat) -> Seq<char>
    decreases n,
{
    if n < 10 {
        seq![digit_char(n)]
    } else {
        decimal(n / 10).push(digit_char(n % 10))
    }
}

/// The `i`-th hexadecimal digit (most significant first) of a 128-bit id.
pub open spec fn uuid_nibble(id: u128, i: nat) -> u8 {
    ((id >> ((124 - 4 * i) as u128)) & 15u128) as u8
}

/// The first `k` characters of the hyphenated lower-case UUID form
/// `xxxxxxxx-xxxx-xxxx-xxxx-xxxxxxxxxxxx` (digits counted, hyphens inserted).
pub open spec fn uuid_digits(id: u128, k: nat) -> Seq<char>
    decreases k,
{
    if k == 0 {
        Seq::empty()
    } else {
        let prev = uuid_digits(id, (k - 1) as nat);
        let with_hyphen = if k - 1 == 8 || k - 1 == 12 || k - 1 == 16 || k - 1 == 20 {
            prev.push('-')
        } else {
            prev
        };
        with_hyphen.push(digest::hex_digit(uuid_nibble(id, (k - 1) as nat)))
    }
}

/// The hyphenated lower-case text of a UUID.
pub open spec fn uuid_text(id: u128) -> Seq<char> {
    uuid_digits(id, 32)
}

pub open spec fn json_uuid(id: u128) -> Seq<char> {
    json_string(uuid_text(id))
}

/// Comma-separated JSON strings, without brackets.
pub open spec fn string_items(items: Seq<Seq<char>>) -> Seq<char>
    decreases items.len(),
{
    if items.len() == 0 {
        Seq::empty()
    } else if items.len() == 1 {
        json_string(items[0])
    } else {
        string_items(items.drop_last()) + seq![','] + json_string(items.last())
    }
}

pub open spec fn json_string_array(items: Seq<Seq<char>>) -> Seq<char> {
    seq!['['] + string_items(items) + seq![']']
}

pub open spec fn uuid_items(items: Seq<u128>) -> Seq<char>
    decreases items.len(),
{
    if items.len() == 0 {
        Seq::empty()
    } else if items.len() == 1 {
        json_uuid(items[0])
    } else {
        uuid_items(items.drop_last()) + seq![','] + json_uuid(items.last())
    }
}

pub open spec fn json_uuid_array(items: Seq<u128>) -> Seq<char> {
    seq!['['] + uuid_items(items) + seq![']']
}

/// The views of a vector of strings.
pub open spec fn string_views(v: Seq<String>) -> Seq<Seq<char>> {
    v.map_values(|s: String| s@)
}

pub open spec fn opt_view(o: Option<String>) -> Option<Seq<char>> {
    match o {
        Some(s) => Some(s@),
        None => None,
    }
}

pub fn escape_char_exec(out: &mut String, c: char)
    ensures
        final(out)@ == old(out)@ + escape_char(c),
{
    let ghost start = out@;
    let u = c as u32;
    if c == '"' {
        push_char(out, '\\');
        push_char(out, '"');
    } else if c == '\\' {
        push_char(out, '\\');
        push_char(out, '\\');
    } else if u == 8 {
        push_char(out, '\\');
        push_char(out, 'b');
    } else if u == 9 {
        push_char(out, '\\');
        push_char(out, 't');
    } else if u == 10 {
        push_char(out, '\\');
        push_char(out, 'n');
    } else if u == 12 {
        push_char(out, '\\');
        push_char(out, 'f');
    } else if u == 13 {
        push_char(out, '\\');
        push_char(out, 'r');
    } else if u < 0x20 {
        push_char(out, '\\');
        push_char(out, 'u');
        push_char(out, '0');
        push_char(out, '0');
        push_char(out, crate::digest::hex_digit_exec((u / 16) as u8));
        push_char(out, crate::digest::hex_digit_exec((u % 16) as u8));
    } else {
        push_char(out, c);
    }
    proof {
        assert(out@ =~= start + escape_char(c));
    }
}

/// Appends the JSON string literal of `s`.
pub fn write_string(out: &mut String, s: &str)
    ensures
        final(out)@ == old(out)@ + json_string(s@),
{
    let ghost start = out@;
    let v = chars_of(s);
    push_char(out, '"');
    let mut i: usize = 0;
    proof {
        assert(v@.subrange(0, 0) =~= Seq::<char>::empty());
        assert(out@ =~= start + seq!['"'] + escaped(v@.subrange(0, 0)));
    }
    while i < v.len()
        invariant
            v@ == s@,
            0 <= i <= v@.len(),
            out@ == start + seq!['"'] + escaped(v@.subrange(0, i as int)),
        decreases v.len() - i,
    {
        escape_char_exec(out, v[i]);
        proof {
            let next = v@.subrange(0, i + 1);
            assert(next.drop_last() =~= v@.subrange(0, i as int));
            assert(out@ =~= start + seq!['"'] + escaped(next));
        }
        i += 1;
    }
    push_char(out, '"');
    proof {
        assert(v@.subrange(0, v@.len() as int) =~= v@);
        assert(out@ =~= start + json_string(s@));
    }
}

pub fn write_opt_string(out: &mut String, s: &Option<String>)
    ensures
        final(out)@ == old(out)@ + json_opt_string(opt_view(*s)),
{
    match s {
        Some(v) => write_string(out, v.as_str()),
        None => write_null(out),
    }
}

pub fn write_null(out: &mut String)
    ensures
        final(out)@ == old(out)@ + json_null(),
{
    let ghost start = out@;
    push_char(out, 'n');
    push_char(out, 'u');
    push_char(out, 'l');
    push_char(out, 'l');
    proof {
        assert(out@ =~= start + json_null());
    }
}

pub fn write_bool(out: &mut String, b: bool)
    ensures
        final(out)@ == old(out)@ + json_bool(b),
{
    let ghost start = out@;
    if b {
        push_char(out, 't');
        push_char(out, 'r');
        push_char(out, 'u');
        push_char(out, 'e');
    } else {
        push_char(out, 'f');
        push_char(out, 'a');
        push_char(out, 'l');
        push_char(out, 's');
        push_char(out, 'e');
    }
    proof {
        assert(out@ =~= start + json_bool(b));
    }
}

/// Appends the decimal digits of `n`.
pub fn write_decimal(out: &mut String, n: u64)
    ensures
        final(out)@ == old(out)@ + decimal(n as nat),
    decreases n,
{
    let ghost start = out@;
    if n >= 10 {
        write_decimal(out, n / 10);
    }
    let d = (n % 10) as u32;
    push_char(out, ((('0' as u32) + d) as u8) as char);
    proof {
        if n >= 10 {
            assert(out@ =~= start + decimal(n as nat));
        } else {
            assert(out@ =~= start + decimal(n as nat));
        }
    }
}

/// Appends the hyphenated lower-case text of a UUID.
pub fn write_uuid_text(out: &mut String, id: u128)
    ensures
        final(out)@ == old(out)@ + uuid_text(id),
{
    let ghost start = out@;
    let mut k: u32 = 0;
    proof {
        assert(out@ =~= start + uuid_digits(id, 0));
    }
    while k < 32
        invariant
            0 <= k <= 32,
            out@ == start + uuid_digits(id, k as nat),
        decreases 32 - k,
    {
        if k == 8 || k == 12 || k == 16 || k == 20 {
            push_char(out, '-');
        }
        let shift: u32 = 124 - 4 * k;
        let nib = ((id >> shift) & 15u128) as u8;
        assert(nib == uuid_nibble(id, k as nat));
        proof {
            lemma_nibble_small(id >> shift);
        }
        push_char(out, crate::digest::hex_digit_exec(nib));
        proof {
            assert(out@ =~= start + uuid_digits(id, (k + 1) as nat));
        }
        k += 1;
    }
}

pub fn write_uuid(out: &mut String, id: u128)
    ensures
        final(out)@ == old(out)@ + json_uuid(id),
{
    let ghost start = out@;
    push_char(out, '"');
    write_uuid_text(out, id);
    push_char(out, '"');
    proof {
        escaped_plain_uuid(id);
        assert(out@ =~= start + json_uuid(id));
    }
}

pub proof fn lemma_nibble_small(x: u128)
    ensures
        ((x & 15u128) as u8) < 16,
{
    assert(((x & 15u128) as u8) < 16) by (bit_vector);
}

/// The hyphenated text has no character that JSON escapes.
pub proof fn escaped_plain_uuid(id: u128)
    ensures
        escaped(uuid_text(id)) == uuid_text(id),
{
    lemma_uuid_digits_plain(id, 32);
}

proof fn lemma_uuid_digits_plain(id: u128, k: nat)
    ensures
        escaped(uuid_digits(id, k)) == uuid_digits(id, k),
    decreases k,
{
    if k > 0 {
        lemma_uuid_digits_plain(id, (k - 1) as nat);
        let prev = uuid_digits(id, (k - 1) as nat);
        let n = uuid_nibble(id, (k - 1) as nat);
        lemma_nibble_small(id >> ((124 - 4 * (k - 1)) as u128));
        let hyphen = k - 1 == 8 || k - 1 == 12 || k - 1 == 16 || k - 1 == 20;
        let mid = if hyphen {
            prev.push('-')
        } else {
            prev
        };
        if hyphen {
            assert(prev.push('-').drop_last() =~= prev);
            assert(escaped(mid) =~= mid);
        }
        let full = mid.push(digest::hex_digit(n));
        assert(full.drop_last() =~= mid);
        assert(escape_char(digest::hex_digit(n)) =~= seq![digest::hex_digit(n)]);
        assert(escaped(full) =~= full);
    }
}

/// Appends `s1, s2, ...` as JSON strings separated by commas.
pub fn write_string_items(out: &mut String, items: &Vec<String>)
    ensures
        final(out)@ == old(out)@ + string_items(string_views(items@)),
{
    let ghost start = out@;
    let ghost views = string_views(items@);
    let mut i: usize = 0;
    proof {
        assert(views.subrange(0, 0) =~= Seq::<Seq<char>>::empty());
        assert(out@ =~= start + string_items(views.subrange(0, 0)));
    }
    while i < items.len()
        invariant
            views == string_views(items@),
            0 <= i <= items@.len(),
            out@ == start + string_items(views.subrange(0, i as int)),
        decreases items.len() - i,
    {
        let ghost before = out@;
        if i > 0 {
            push_char(out, ',');
        }
        write_string(out, items[i].as_str());
        proof {
            let next = views.subrange(0, i + 1);
            assert(next.drop_last() =~= views.subrange(0, i as int));
            assert(next.last() == items@[i as int]@);
            if i == 0 {
                assert(out@ =~= start + string_items(next));
            } else {
                assert(out@ =~= start + string_items(next));
            }
        }
        i += 1;
    }
    proof {
        assert(views.subrange(0, items@.len() as int) =~= views);
    }
}

pub fn write_string_array(out: &mut String, items: &Vec<String>)
    ensures
        final(out)@ == old(out)@ + json_string_array(string_views(items@)),
{
    let ghost start = out@;
    push_char(out, '[');
    write_string_items(out, items);
    push_char(out, ']');
    proof {
        assert(out@ =~= start + json_string_array(string_views(items@)));
    }
}

pub fn write_uuid_array(out: &mut String, items: &Vec<u128>)
    ensures
        final(out)@ == old(out)@ + json_uuid_array(items@),
{
    let ghost start = out@;
    push_char(out, '[');
    let mut i: usize = 0;
    proof {
        assert(items@.subrange(0, 0) =~= Seq::<u128>::empty());
        assert(out@ =~= start + seq!['['] + uuid_items(items@.subrange(0, 0)));
    }
    while i < items.len()
        invariant
            0 <= i <= items@.len(),
            out@ == start + seq!['['] + uuid_items(items@.subrange(0, i as int)),
        decreases items.len() - i,
    {
        if i > 0 {
            push_char(out, ',');
        }
        write_uuid(out, items[i]);
        proof {
            let next = items@.subrange(0, i + 1);
            assert(next.drop_last() =~= items@.subrange(0, i as int));
            assert(out@ =~= start + seq!['['] + uuid_items(next));
        }
        i += 1;
    }
    push_char(out, ']');
    proof {
        assert(items@.subrange(0, items@.len() as int) =~= items@);
        assert(out@ =~= start + json_uuid_array(items@));
    }
}

/// Appends a literal fragment of record syntax (keys, braces, commas).
pub fn write_raw(out: &mut String, fragment: &str)
    ensures
        final(out)@ == old(out)@ + fragment@,
{
    push_str(out, fragment);
}

} // verus!
