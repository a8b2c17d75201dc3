//! Mode-token resolution and the parsing of user-supplied text: the hex
//! instruction string and the base-address literal.

use vstd::prelude::*;
use vstd::string::StrSliceExecFns;

use crate::error::Error;

verus! {

/// The architecture/mode pairs that the linked Zydis engine supports.
#[derive(Clone, Copy, PartialEq, Eq, Structural, Debug)]
pub enum MachineMode {
    /// 32-bit x86 (long-compatibility mode, 32-bit stack width).
    X86,
    /// 64-bit x86 (long mode, 64-bit stack width).
    Amd64,
}

pub open spec fn mode_is_64(m: MachineMode) -> bool {
    m is Amd64
}

impl MachineMode {
    /// The address/stack width of this mode, in bits.
    pub fn bit_width(&self) -> (w: u32)
        ensures
            w == if mode_is_64(*self) {
                64u32
            } else {
                32u32
            },
    {
        match self {
            MachineMode::X86 => 32,
            MachineMode::Amd64 => 64,
        }
    }

    pub fn is_64_bit(&self) -> (r: bool)
        ensures
            r == mode_is_64(*self),
    {
        match self {
            MachineMode::X86 => false,
            MachineMode::Amd64 => true,
        }
    }
}

/// The closed mode table: a token resolves exactly when it is one of the
/// two supported tokens, by exact, case-sensitive match.
pub open spec fn spec_resolve(s: Seq<char>) -> Option<MachineMode> {
    if s == "x86"@ {
        Some(MachineMode::X86)
    } else if s == "amd64"@ {
        Some(MachineMode::Amd64)
    } else {
        None
    }
}

/// Character-for-character string equality.
fn str_eq_token(s: &str, t: &str) -> (r: bool)
    ensures
        r == (s@ == t@),
{
    let n = s.unicode_len();
    if n != t.unicode_len() {
        proof {
            if s@ == t@ {
                assert(s@.len() == t@.len());
            }
        }
        return false;
    }
    let mut i: usize = 0;
    while i < n
        invariant
            n as nat == s@.len(),
            n as nat == t@.len(),
            0 <= i <= n,
            forall|j: int| 0 <= j < i ==> s@[j] == t@[j],
        decreases n - i,
    {
        if s.get_char(i) != t.get_char(i) {
            proof {
                if s@ == t@ {
                    assert(s@[i as int] == t@[i as int]);
                }
            }
            return false;
        }
        i += 1;
    }
    proof {
        assert(s@ =~= t@);
    }
    true
}

/// Resolves a mode token against the closed mode table. No fuzzy or prefix
/// matching: the token must equal a supported token exactly.
pub fn resolve(token: &str) -> (r: Result<MachineMode, Error>)
    ensures
        spec_resolve(token@) matches Some(m) ==> (r matches Ok(m2) && m2 == m),
        spec_resolve(token@) is None ==> (r matches Err(e)
            && e matches Error::InvalidModeToken(s) && s@ == token@),
{
    if str_eq_token(token, "x86") {
        Ok(MachineMode::X86)
    } else if str_eq_token(token, "amd64") {
        Ok(MachineMode::Amd64)
    } else {
        Err(Error::InvalidModeToken(token.to_owned()))
    }
}

/// The ordered list of the valid mode tokens; it is never empty, and every
/// entry resolves.
pub fn valid_mode_tokens() -> (v: Vec<String>)
    ensures
        v@.len() == 2,
        v@[0]@ == "x86"@,
        v@[1]@ == "amd64"@,
        spec_resolve(v@[0]@) == Some(MachineMode::X86),
        spec_resolve(v@[1]@) == Some(MachineMode::Amd64),
{
    let mut v: Vec<String> = Vec::new();
    v.push(("x86").to_owned());
    v.push(("amd64").to_owned());
    proof {
        lemma_resolve_total();
    }
    v
}

/// Mode resolution is exact and total on the valid token set: a token
/// resolves if and only if it equals one of the two supported tokens, and
/// each supported token resolves to its own architecture/mode pair.
pub proof fn lemma_resolve_total()
    ensures
        forall|s: Seq<char>| spec_resolve(s) is Some <==> (s == "x86"@ || s == "amd64"@),
        spec_resolve("x86"@) == Some(MachineMode::X86),
        spec_resolve("amd64"@) == Some(MachineMode::Amd64),
{
    reveal_strlit("x86");
    reveal_strlit("amd64");
    assert(("x86"@).len() == 3);
    assert(("amd64"@).len() == 5);
}

/// The numeric value of one hexadecimal digit character, if it is one:
/// `0`-`9`, `a`-`f` or `A`-`F`.
pub open spec fn hex_char_val(c: char) -> Option<u8> {
    let v = c as int;
    if 48 <= v && v <= 57 {
        Some((v - 48) as u8)
    } else if 97 <= v && v <= 102 {
        Some((v - 87) as u8)
    } else if 65 <= v && v <= 70 {
        Some((v - 55) as u8)
    } else {
        None
    }
}

/// The hex-digit values that survive a left-to-right scan of `s`; every
/// other character is discarded silently.
pub open spec fn hex_nibbles(s: Seq<char>) -> Seq<u8>
    decreases s.len(),
{
    if s.len() == 0 {
        Seq::empty()
    } else {
        hex_nibbles(s.drop_last()) + (match hex_char_val(s.last()) {
            Some(v) => seq![v],
            None => Seq::<u8>::empty(),
        })
    }
}

/// Consecutive nibbles paired into bytes, high nibble first; an unpaired
/// trailing nibble is dropped silently.
pub open spec fn pair_nibbles(ns: Seq<u8>) -> Seq<u8> {
    Seq::new(ns.len() / 2, |k: int| (ns[2 * k] * 16 + ns[2 * k + 1]) as u8)
}

/// What a hex instruction string decodes to.
pub open spec fn spec_parse_assembly(s: Seq<char>) -> Seq<u8> {
    pair_nibbles(hex_nibbles(s))
}

fn hex_val_of(c: char) -> (v: Option<u8>)
    ensures
        v == hex_char_val(c),
        v matches Some(x) ==> x < 16,
{
    let u = c as u32;
    if 48 <= u && u <= 57 {
        Some((u - 48) as u8)
    } else if 97 <= u && u <= 102 {
        Some((u - 87) as u8)
    } else if 65 <= u && u <= 70 {
        Some((u - 55) as u8)
    } else {
        None
    }
}

fn collect_hex_nibbles(s: &str) -> (nibs: Vec<u8>)
    ensures
        nibs@ == hex_nibbles(s@),
        forall|j: int| 0 <= j < nibs@.len() ==> nibs@[j] < 16,
{
    let n = s.unicode_len();
    let mut nibs: Vec<u8> = Vec::new();
    let mut i: usize = 0;
    while i < n
        invariant
            i <= n,
            n as nat == s@.len(),
            nibs@ == hex_nibbles(s@.take(i as int)),
            forall|j: int| 0 <= j < nibs@.len() ==> nibs@[j] < 16,
        decreases n - i,
    {
        let c = s.get_char(i);
        match hex_val_of(c) {
            Some(x) => nibs.push(x),
            None => (),
        }
        proof {
            assert(s@.take(i + 1).drop_last() =~= s@.take(i as int));
            assert(s@.take(i + 1).last() == s@[i as int]);
            assert(nibs@ =~= hex_nibbles(s@.take(i + 1)));
        }
        i += 1;
    }
    proof {
        assert(s@.take(n as int) =~= s@);
    }
    nibs
}

/// Turns a hex instruction string into the byte buffer to decode: scans left
/// to right, keeps only hexadecimal digits (so separators like spaces are
/// tolerated), pairs them into bytes high nibble first, and drops a trailing
/// unpaired digit.
pub fn parse_assembly(hex_asm: &str) -> (r: Vec<u8>)
    ensures
        r@ == spec_parse_assembly(hex_asm@),
{
    let nibs = collect_hex_nibbles(hex_asm);
    let m = nibs.len() / 2;
    let mut out: Vec<u8> = Vec::new();
    let mut j: usize = 0;
    while j < m
        invariant
            j <= m,
            m == nibs@.len() / 2,
            nibs@.len() <= usize::MAX,
            forall|t: int| 0 <= t < nibs@.len() ==> nibs@[t] < 16,
            out@ == pair_nibbles(nibs@).take(j as int),
        decreases m - j,
    {
        proof {
            assert(2 * (nibs@.len() as int / 2) <= nibs@.len());
            assert(2 * j + 1 < nibs@.len());
        }
        let h = nibs[2 * j];
        let l = nibs[2 * j + 1];
        out.push(h * 16 + l);
        proof {
            assert(out@ =~= pair_nibbles(nibs@).take(j + 1));
        }
        j += 1;
    }
    proof {
        assert(pair_nibbles(nibs@).take(m as int) =~= pair_nibbles(nibs@));
    }
    out
}

/// The hex-digit scan distributes over concatenation.
pub proof fn lemma_hex_nibbles_concat(a: Seq<char>, b: Seq<char>)
    ensures
        hex_nibbles(a + b) == hex_nibbles(a) + hex_nibbles(b),
    decreases b.len(),
{
    if b.len() == 0 {
        assert(a + b =~= a);
        assert(hex_nibbles(a) + hex_nibbles(b) =~= hex_nibbles(a));
    } else {
        lemma_hex_nibbles_concat(a, b.drop_last());
        assert((a + b).drop_last() =~= a + b.drop_last());
        assert((a + b).last() == b.last());
        assert(hex_nibbles(a + b) =~= hex_nibbles(a) + hex_nibbles(b));
    }
}

/// Hex parsing is insensitive to separators: strings whose surviving hex
/// digits agree decode to the same byte buffer.
pub proof fn lemma_parse_assembly_separators(a: Seq<char>, b: Seq<char>)
    requires
        hex_nibbles(a) == hex_nibbles(b),
    ensures
        spec_parse_assembly(a) == spec_parse_assembly(b),
{
}

/// Inserting one character that is no hex digit, anywhere, changes nothing
/// about what a hex instruction string decodes to.
pub proof fn lemma_separator_inserted(a: Seq<char>, c: char, b: Seq<char>)
    requires
        hex_char_val(c) is None,
    ensures
        spec_parse_assembly(a + seq![c] + b) == spec_parse_assembly(a + b),
{
    lemma_hex_nibbles_concat(a, seq![c]);
    lemma_hex_nibbles_concat(a + seq![c], b);
    lemma_hex_nibbles_concat(a, b);
    assert(seq![c].drop_last() =~= Seq::<char>::empty());
    assert(hex_nibbles(Seq::<char>::empty()) =~= Seq::<u8>::empty());
    assert(seq![c].last() == c);
    assert(hex_nibbles(seq![c]) =~= Seq::<u8>::empty());
    assert(hex_nibbles(a + seq![c]) =~= hex_nibbles(a));
    assert(hex_nibbles(a + seq![c] + b) =~= hex_nibbles(a + b));
}

/// Input with no hex digit at all — empty, or separators only — decodes to
/// the empty byte buffer, which the rest of the pipeline passes through as
/// a run of zero instructions.
pub proof fn lemma_no_digits_no_bytes(s: Seq<char>)
    requires
        forall|i: int| 0 <= i < s.len() ==> hex_char_val(s[i]) is None,
    ensures
        hex_nibbles(s) == Seq::<u8>::empty(),
        spec_parse_assembly(s) == Seq::<u8>::empty(),
    decreases s.len(),
{
    if s.len() > 0 {
        assert(forall|i: int|
            0 <= i < s.drop_last().len() ==> hex_char_val(s.drop_last()[i]) is None);
        lemma_no_digits_no_bytes(s.drop_last());
        assert(hex_nibbles(s) =~= Seq::<u8>::empty());
    }
    assert(pair_nibbles(hex_nibbles(s)) =~= Seq::<u8>::empty());
}

/// Whether the string is made of decimal digits alone; an empty string
/// counts as all-digits.
pub open spec fn all_digits(s: Seq<char>) -> bool
    decreases s.len(),
{
    s.len() == 0 || (all_digits(s.drop_last()) && is_digit_char(s.last()))
}

pub open spec fn is_digit_char(c: char) -> bool {
    48 <= c as int && c as int <= 57
}

/// The value of a digit string read in base ten.
pub open spec fn dec_val(s: Seq<char>) -> int
    decreases s.len(),
{
    if s.len() == 0 {
        0
    } else {
        dec_val(s.drop_last()) * 10 + (s.last() as int - 48)
    }
}

/// The value of a nibble sequence read in base sixteen.
pub open spec fn hex_val(ns: Seq<u8>) -> int
    decreases ns.len(),
{
    if ns.len() == 0 {
        0
    } else {
        hex_val(ns.drop_last()) * 16 + ns.last()
    }
}

proof fn lemma_all_digits_take(s: Seq<char>, i: int)
    requires
        all_digits(s),
        0 <= i <= s.len(),
    ensures
        all_digits(s.take(i)),
    decreases s.len(),
{
    if i == s.len() {
        assert(s.take(i) =~= s);
    } else if s.len() > 0 {
        assert(s.take(i) =~= s.drop_last().take(i));
        lemma_all_digits_take(s.drop_last(), i);
    }
}

proof fn lemma_dec_val_nonneg(s: Seq<char>)
    requires
        all_digits(s),
    ensures
        dec_val(s) >= 0,
    decreases s.len(),
{
    if s.len() > 0 {
        lemma_dec_val_nonneg(s.drop_last());
    }
}

/// Appending digits never shrinks the value: the whole string's value is at
/// least any prefix's value.
proof fn lemma_dec_val_grows(s: Seq<char>, i: int)
    requires
        all_digits(s),
        0 <= i <= s.len(),
    ensures
        dec_val(s) >= dec_val(s.take(i)),
    decreases s.len() - i,
{
    if i < s.len() {
        lemma_all_digits_take(s, i);
        lemma_all_digits_take(s, i + 1);
        lemma_dec_val_nonneg(s.take(i));
        assert(s.take(i + 1).drop_last() =~= s.take(i));
        assert(dec_val(s.take(i + 1)) >= dec_val(s.take(i)));
        lemma_dec_val_grows(s, i + 1);
    } else {
        assert(s.take(i) =~= s);
    }
}

proof fn lemma_hex_val_nonneg(ns: Seq<u8>)
    ensures
        hex_val(ns) >= 0,
    decreases ns.len(),
{
    if ns.len() > 0 {
        lemma_hex_val_nonneg(ns.drop_last());
    }
}

proof fn lemma_hex_val_grows(ns: Seq<u8>, i: int)
    requires
        0 <= i <= ns.len(),
    ensures
        hex_val(ns) >= hex_val(ns.take(i)),
    decreases ns.len() - i,
{
    if i < ns.len() {
        lemma_hex_val_nonneg(ns.take(i));
        assert(ns.take(i + 1).drop_last() =~= ns.take(i));
        assert(hex_val(ns.take(i + 1)) >= hex_val(ns.take(i)));
        lemma_hex_val_grows(ns, i + 1);
    } else {
        assert(ns.take(i) =~= ns);
    }
}

/// Parses a base-address literal. A string of decimal digits alone is read
/// as decimal; a string containing any other character is read as
/// hexadecimal after every character that is no hex digit is stripped. The
/// literal is rejected when nothing is left to read or the value does not
/// fit in 64 bits.
pub fn try_parse_number(num_str: &str) -> (r: Result<u64, Error>)
    ensures
        all_digits(num_str@) && num_str@.len() > 0 && dec_val(num_str@) <= u64::MAX ==> (
        r matches Ok(v) && v == dec_val(num_str@)),
        all_digits(num_str@) && (num_str@.len() == 0 || dec_val(num_str@) > u64::MAX) ==> (
        r matches Err(e) && e matches Error::InvalidAddressLiteral(t) && t@ == num_str@),
        !all_digits(num_str@) && hex_nibbles(num_str@).len() > 0 && hex_val(hex_nibbles(num_str@))
            <= u64::MAX ==> (r matches Ok(v) && v == hex_val(hex_nibbles(num_str@))),
        !all_digits(num_str@) && (hex_nibbles(num_str@).len() == 0 || hex_val(
            hex_nibbles(num_str@),
        ) > u64::MAX) ==> (r matches Err(e) && e matches Error::InvalidAddressLiteral(t) && t@
            == num_str@),
{
    let n = num_str.unicode_len();
    let mut all_dig = true;
    let mut i: usize = 0;
    while i < n
        invariant
            i <= n,
            n as nat == num_str@.len(),
            all_dig == all_digits(num_str@.take(i as int)),
        decreases n - i,
    {
        let c = num_str.get_char(i);
        let u = c as u32;
        if u < 48 || u > 57 {
            all_dig = false;
        }
        proof {
            assert(num_str@.take(i + 1).drop_last() =~= num_str@.take(i as int));
            assert(num_str@.take(i + 1).last() == num_str@[i as int]);
        }
        i += 1;
    }
    proof {
        assert(num_str@.take(n as int) =~= num_str@);
    }
    if all_dig {
        if n == 0 {
            return Err(Error::InvalidAddressLiteral(num_str.to_owned()));
        }
        let mut acc: u64 = 0;
        let mut i: usize = 0;
        while i < n
            invariant
                i <= n,
                n as nat == num_str@.len(),
                n > 0,
                all_digits(num_str@),
                acc == dec_val(num_str@.take(i as int)),
            decreases n - i,
        {
            let c = num_str.get_char(i);
            proof {
                lemma_all_digits_take(num_str@, i + 1);
                assert(num_str@.take(i + 1).last() == num_str@[i as int]);
                assert(is_digit_char(num_str@[i as int]));
                assert(c as u32 >= 48 && c as u32 <= 57);
            }
            let d = ((c as u32) - 48) as u64;
            let next = match acc.checked_mul(10) {
                Some(t) => t.checked_add(d),
                None => None,
            };
            proof {
                assert(num_str@.take(i + 1).drop_last() =~= num_str@.take(i as int));
                assert(dec_val(num_str@.take(i + 1)) == acc * 10 + (num_str@[i as int] as int
                    - 48));
                lemma_dec_val_grows(num_str@, i + 1);
            }
            match next {
                Some(v) => {
                    acc = v;
                },
                None => {
                    proof {
                        assert(acc * 10 + d > u64::MAX);
                        assert(dec_val(num_str@) > u64::MAX);
                    }
                    return Err(Error::InvalidAddressLiteral(num_str.to_owned()));
                },
            }
            i += 1;
        }
        proof {
            assert(num_str@.take(n as int) =~= num_str@);
        }
        Ok(acc)
    } else {
        let nibs = collect_hex_nibbles(num_str);
        if nibs.len() == 0 {
            return Err(Error::InvalidAddressLiteral(num_str.to_owned()));
        }
        let m = nibs.len();
        let mut acc: u64 = 0;
        let mut j: usize = 0;
        while j < m
            invariant
                j <= m,
                m == nibs@.len(),
                nibs@ == hex_nibbles(num_str@),
                !all_digits(num_str@),
                acc == hex_val(nibs@.take(j as int)),
            decreases m - j,
        {
            let d = nibs[j] as u64;
            let next = match acc.checked_mul(16) {
                Some(t) => t.checked_add(d),
                None => None,
            };
            proof {
                assert(nibs@.take(j + 1).drop_last() =~= nibs@.take(j as int));
                assert(nibs@.take(j + 1).last() == nibs@[j as int]);
                assert(hex_val(nibs@.take(j + 1)) == acc * 16 + nibs@[j as int]);
                lemma_hex_val_grows(nibs@, j + 1);
            }
            match next {
                Some(v) => {
                    acc = v;
                },
                None => {
                    proof {
                        assert(acc * 16 + d > u64::MAX);
                        assert(hex_val(nibs@) > u64::MAX);
                    }
                    return Err(Error::InvalidAddressLiteral(num_str.to_owned()));
                },
            }
            j += 1;
        }
        proof {
            assert(nibs@.take(m as int) =~= nibs@);
        }
        Ok(acc)
    }
}

/// Everything the pipeline needs for one run, as plain values.
pub struct DisasmArg {
    pub mode: MachineMode,
    pub address: u64,
    pub detail: bool,
    pub hilight: bool,
    pub verbosity: u8,
    pub assembly: Vec<u8>,
}

} // verus!
