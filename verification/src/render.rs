//! Rendering of decoded instruction records into verbosity-tiered text lines.
//!
//! Tier 0 is the instruction text alone; tier 1 prefixes it with the linear
//! address in lowercase hex; tiers 2 and above additionally insert the raw
//! instruction bytes as space-separated lowercase hex pairs. The fields are
//! tab-separated so that the final flush can column-align them.

use vstd::prelude::*;
use vstd::string::StringExecFns;

verus! {

/// The lowercase hexadecimal digit of a value below sixteen.
pub open spec fn hex_char(d: int) -> char {
    if d == 0 {
        '0'
    } else if d == 1 {
        '1'
    } else if d == 2 {
        '2'
    } else if d == 3 {
        '3'
    } else if d == 4 {
        '4'
    } else if d == 5 {
        '5'
    } else if d == 6 {
        '6'
    } else if d == 7 {
        '7'
    } else if d == 8 {
        '8'
    } else if d == 9 {
        '9'
    } else if d == 10 {
        'a'
    } else if d == 11 {
        'b'
    } else if d == 12 {
        'c'
    } else if d == 13 {
        'd'
    } else if d == 14 {
        'e'
    } else {
        'f'
    }
}

fn hex_char_of(d: u8) -> (c: char)
    requires
        d < 16,
    ensures
        c == hex_char(d as int),
{
    match d {
        0 => '0',
        1 => '1',
        2 => '2',
        3 => '3',
        4 => '4',
        5 => '5',
        6 => '6',
        7 => '7',
        8 => '8',
        9 => '9',
        10 => 'a',
        11 => 'b',
        12 => 'c',
        13 => 'd',
        14 => 'e',
        _ => 'f',
    }
}

/// Relies on String::push: it appends exactly the one character.
#[verifier::external_body]
pub(crate) fn string_push(s: &mut String, c: char)
    ensures
        final(s)@ == old(s)@.push(c),
{
    s.push(c);
}

/// The lowercase hex spelling of a number: no leading zeros, no fixed width,
/// a single `0` for zero.
pub open spec fn hex_seq(n: nat) -> Seq<char>
    decreases n,
{
    if n < 16 {
        seq![hex_char(n as int)]
    } else {
        hex_seq(n / 16) + seq![hex_char((n % 16) as int)]
    }
}

/// Spells a 64-bit number in lowercase hex, without padding.
pub fn u64_hex(n: u64) -> (s: String)
    ensures
        s@ == hex_seq(n as nat),
    decreases n,
{
    if n < 16 {
        let mut s = String::new();
        string_push(&mut s, hex_char_of(n as u8));
        proof {
            assert(s@ =~= hex_seq(n as nat));
        }
        s
    } else {
        let mut s = u64_hex(n / 16);
        string_push(&mut s, hex_char_of((n % 16) as u8));
        proof {
            assert(s@ =~= hex_seq(n as nat));
        }
        s
    }
}

/// The two hex digits of one byte, high nibble first.
pub open spec fn byte_hex(b: u8) -> Seq<char> {
    seq![hex_char(b as int / 16), hex_char(b as int % 16)]
}

/// The raw-byte field: two hex digits per byte, bytes separated by one space.
pub open spec fn bytes_hex(bs: Seq<u8>) -> Seq<char>
    decreases bs.len(),
{
    if bs.len() == 0 {
        Seq::empty()
    } else if bs.len() == 1 {
        byte_hex(bs[0])
    } else {
        bytes_hex(bs.drop_last()) + seq![' '] + byte_hex(bs.last())
    }
}

/// Spells bytes as space-separated lowercase hex pairs.
pub fn bytes_hex_str(bytes: &[u8]) -> (s: String)
    ensures
        s@ == bytes_hex(bytes@),
{
    let mut s = String::new();
    let n = bytes.len();
    let mut i: usize = 0;
    while i < n
        invariant
            i <= n,
            n == bytes@.len(),
            s@ == bytes_hex(bytes@.take(i as int)),
        decreases n - i,
    {
        if i > 0 {
            string_push(&mut s, ' ');
        }
        let b = bytes[i];
        string_push(&mut s, hex_char_of(b / 16));
        string_push(&mut s, hex_char_of(b % 16));
        proof {
            assert(bytes@.take(i + 1).drop_last() =~= bytes@.take(i as int));
            assert(bytes@.take(i + 1).last() == bytes@[i as int]);
            assert(s@ =~= bytes_hex(bytes@.take(i + 1)));
        }
        i += 1;
    }
    proof {
        assert(bytes@.take(n as int) =~= bytes@);
    }
    s
}

/// One rendered line for one instruction record, by verbosity tier.
pub open spec fn spec_render_line(verbosity: u8, addr: u64, bytes: Seq<u8>, text: Seq<char>) -> Seq<
    char,
> {
    if verbosity == 0 {
        text
    } else if verbosity == 1 {
        seq!['0', 'x'] + hex_seq(addr as nat) + seq!['\t'] + text
    } else {
        seq!['0', 'x'] + hex_seq(addr as nat) + seq!['\t'] + bytes_hex(bytes) + seq!['\t'] + text
    }
}

/// Renders one instruction record at the given verbosity tier.
pub fn render_line(verbosity: u8, addr: u64, bytes: &[u8], text: &str) -> (s: String)
    ensures
        s@ == spec_render_line(verbosity, addr, bytes@, text@),
{
    if verbosity == 0 {
        text.to_owned()
    } else {
        let mut s = ("0x").to_owned();
        proof {
            reveal_strlit("0x");
            assert(s@ =~= seq!['0', 'x']);
        }
        let hex = u64_hex(addr);
        s.append(hex.as_str());
        string_push(&mut s, '\t');
        if verbosity >= 2 {
            let bh = bytes_hex_str(bytes);
            s.append(bh.as_str());
            string_push(&mut s, '\t');
        }
        s.append(text);
        proof {
            assert(s@ =~= spec_render_line(verbosity, addr, bytes@, text@));
        }
        s
    }
}

proof fn lemma_bytes_hex_len(bs: Seq<u8>)
    ensures
        bs.len() == 0 ==> bytes_hex(bs).len() == 0,
        bs.len() > 0 ==> bytes_hex(bs).len() == 3 * bs.len() - 1,
    decreases bs.len(),
{
    if bs.len() > 1 {
        lemma_bytes_hex_len(bs.drop_last());
    }
}

/// Verbosity tiers are strictly additive in information: tier 0 is the
/// instruction text alone; tier 1 is tier 0 prefixed by the address field;
/// every tier from 2 on is tier 0 prefixed by the address field and by the
/// raw-byte field, which spells exactly the record's bytes, three characters
/// per byte but for the last.
pub proof fn lemma_verbosity_additive(verbosity: u8, addr: u64, bytes: Seq<u8>, text: Seq<char>)
    ensures
        spec_render_line(0, addr, bytes, text) == text,
        spec_render_line(1, addr, bytes, text) == seq!['0', 'x'] + hex_seq(addr as nat)
            + seq!['\t'] + spec_render_line(0, addr, bytes, text),
        verbosity >= 2 ==> spec_render_line(verbosity, addr, bytes, text) == seq!['0', 'x']
            + hex_seq(addr as nat) + seq!['\t'] + bytes_hex(bytes) + seq!['\t'] + spec_render_line(
            0,
            addr,
            bytes,
            text,
        ),
        bytes.len() > 0 ==> bytes_hex(bytes).len() == 3 * bytes.len() - 1,
{
    lemma_bytes_hex_len(bytes);
}

} // verus!
