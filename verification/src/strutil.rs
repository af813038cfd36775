//! Verified string helpers: lexicographic comparison, equality, and
//! character-level building blocks used by the classifier and the reports.

use vstd::prelude::*;
use vstd::string::StrSliceExecFns;

verus! {

/// The character sequences of a sequence of owned strings.
pub open spec fn views_of(s: Seq<String>) -> Seq<Seq<char>> {
    s.map(|i: int, f: String| f@)
}

/// Lexicographic order on character sequences, comparing Unicode scalar
/// values position by position; a prefix comes before its extensions.
pub open spec fn lex_le(a: Seq<char>, b: Seq<char>) -> bool
    decreases a.len(),
{
    if a.len() == 0 {
        true
    } else if b.len() == 0 {
        false
    } else if (a[0] as u32) < (b[0] as u32) {
        true
    } else if (a[0] as u32) > (b[0] as u32) {
        false
    } else {
        lex_le(a.skip(1), b.skip(1))
    }
}

/// Whether `a` comes at or before `b` in lexicographic order.
pub fn str_le(a: &str, b: &str) -> (r: bool)
    ensures
        r == lex_le(a@, b@),
{
    let alen = a.unicode_len();
    let blen = b.unicode_len();
    let mut i: usize = 0;
    proof {
        assert(a@.skip(0) =~= a@);
        assert(b@.skip(0) =~= b@);
    }
    loop
        invariant
            i <= alen,
            i <= blen,
            alen == a@.len(),
            blen == b@.len(),
            lex_le(a@, b@) == lex_le(a@.skip(i as int), b@.skip(i as int)),
        decreases alen - i,
    {
        if i == alen {
            return true;
        }
        if i == blen {
            return false;
        }
        let ca = a.get_char(i);
        let cb = b.get_char(i);
        if (ca as u32) != (cb as u32) {
            return (ca as u32) < (cb as u32);
        }
        proof {
            assert(a@.skip(i as int).skip(1) =~= a@.skip(i as int + 1));
            assert(b@.skip(i as int).skip(1) =~= b@.skip(i as int + 1));
        }
        i += 1;
    }
}

/// Character-for-character equality of two string slices.
pub fn str_eq(a: &str, b: &str) -> (r: bool)
    ensures
        r == (a@ == b@),
{
    let alen = a.unicode_len();
    let blen = b.unicode_len();
    if alen != blen {
        return false;
    }
    let mut i: usize = 0;
    loop
        invariant
            i <= alen,
            alen == a@.len(),
            blen == b@.len(),
            alen == blen,
            a@.take(i as int) == b@.take(i as int),
        decreases alen - i,
    {
        if i == alen {
            proof {
                assert(a@.take(i as int) =~= a@);
                assert(b@.take(i as int) =~= b@);
            }
            return true;
        }
        let ca = a.get_char(i);
        let cb = b.get_char(i);
        if (ca as u32) != (cb as u32) {
            return false;
        }
        proof {
            assert(a@.take(i as int + 1) =~= b@.take(i as int + 1));
        }
        i += 1;
    }
}

/// Relies on `String::push`: appends exactly the one character `c`.
#[verifier::external_body]
pub fn push_char(s: &mut String, c: char)
    ensures
        final(s)@ == old(s)@.push(c),
{
    s.push(c)
}

/// The needle `n` occurs in `h` starting at position `i`.
pub open spec fn match_at(h: Seq<char>, n: Seq<char>, i: int) -> bool {
    0 <= i && i + n.len() <= h.len() && h.subrange(i, i + n.len() as int) == n
}

/// The needle `n` occurs somewhere in `h`.
pub open spec fn has_substring(h: Seq<char>, n: Seq<char>) -> bool {
    exists|i: int| match_at(h, n, i)
}

fn str_match_at(h: &str, n: &str, i: usize) -> (r: bool)
    requires
        i + n@.len() <= h@.len(),
    ensures
        r == match_at(h@, n@, i as int),
{
    let nl = n.unicode_len();
    let hl = h.unicode_len();
    let mut j: usize = 0;
    proof {
        assert(h@.subrange(i as int, i as int) =~= n@.take(0));
    }
    loop
        invariant
            j <= nl,
            nl == n@.len(),
            hl == h@.len(),
            i + nl <= hl,
            h@.subrange(i as int, i as int + j as int) == n@.take(j as int),
        decreases nl - j,
    {
        if j == nl {
            proof {
                assert(n@.take(nl as int) =~= n@);
            }
            return true;
        }
        let hc = h.get_char(i + j);
        let nc = n.get_char(j);
        if (hc as u32) != (nc as u32) {
            proof {
                if match_at(h@, n@, i as int) {
                    assert(h@.subrange(i as int, i as int + nl as int)[j as int] == n@[j as int]);
                }
            }
            return false;
        }
        proof {
            assert(h@.subrange(i as int, i as int + j as int + 1) =~= n@.take(j as int + 1));
        }
        j += 1;
    }
}

/// Whether the needle `n` occurs as a contiguous substring of `h`.
pub fn str_has_substring(h: &str, n: &str) -> (r: bool)
    ensures
        r == has_substring(h@, n@),
{
    let hl = h.unicode_len();
    let nl = n.unicode_len();
    if nl > hl {
        proof {
            if has_substring(h@, n@) {
                let k = choose|k: int| match_at(h@, n@, k);
                assert(false);
            }
        }
        return false;
    }
    let mut i: usize = 0;
    loop
        invariant
            nl <= hl,
            hl == h@.len(),
            nl == n@.len(),
            i <= hl - nl,
            forall|k: int| 0 <= k < i ==> !match_at(h@, n@, k),
        decreases hl - nl - i,
    {
        if str_match_at(h, n, i) {
            return true;
        }
        if i == hl - nl {
            proof {
                if has_substring(h@, n@) {
                    let k = choose|k: int| match_at(h@, n@, k);
                    assert(false);
                }
            }
            return false;
        }
        i += 1;
    }
}

/// The needle `n` is a suffix of `h`.
pub open spec fn ends_with(h: Seq<char>, n: Seq<char>) -> bool {
    h.len() >= n.len() && h.subrange(h.len() - n.len(), h.len() as int) == n
}

/// Whether the needle `n` is a suffix of `h`.
pub fn str_ends_with(h: &str, n: &str) -> (r: bool)
    ensures
        r == ends_with(h@, n@),
{
    let hl = h.unicode_len();
    let nl = n.unicode_len();
    if nl > hl {
        return false;
    }
    let r = str_match_at(h, n, hl - nl);
    proof {
        assert(match_at(h@, n@, hl as int - nl as int) == ends_with(h@, n@));
    }
    r
}

/// ASCII lowercasing of one character; other characters are unchanged.
pub open spec fn lower_char(c: char) -> char {
    if 'A' as u32 <= c as u32 && c as u32 <= 'Z' as u32 {
        ((c as u32) + 32) as char
    } else {
        c
    }
}

/// ASCII lowercasing of a character sequence.
pub open spec fn lower_seq(s: Seq<char>) -> Seq<char> {
    s.map(|i: int, c: char| lower_char(c))
}

fn lower_char_exec(c: char) -> (r: char)
    ensures
        r == lower_char(c),
{
    match c {
        'A' => 'a',
        'B' => 'b',
        'C' => 'c',
        'D' => 'd',
        'E' => 'e',
        'F' => 'f',
        'G' => 'g',
        'H' => 'h',
        'I' => 'i',
        'J' => 'j',
        'K' => 'k',
        'L' => 'l',
        'M' => 'm',
        'N' => 'n',
        'O' => 'o',
        'P' => 'p',
        'Q' => 'q',
        'R' => 'r',
        'S' => 's',
        'T' => 't',
        'U' => 'u',
        'V' => 'v',
        'W' => 'w',
        'X' => 'x',
        'Y' => 'y',
        'Z' => 'z',
        _ => c,
    }
}

/// ASCII-lowercased copy of a string.
pub fn to_lower(s: &str) -> (r: String)
    ensures
        r@ == lower_seq(s@),
{
    let len = s.unicode_len();
    let mut r = String::new();
    let mut i: usize = 0;
    proof {
        assert(r@ =~= lower_seq(s@.take(0)));
    }
    loop
        invariant
            i <= len,
            len == s@.len(),
            r@ == lower_seq(s@.take(i as int)),
        decreases len - i,
    {
        if i == len {
            proof {
                assert(s@.take(len as int) =~= s@);
            }
            return r;
        }
        let c = s.get_char(i);
        let lc = lower_char_exec(c);
        push_char(&mut r, lc);
        proof {
            assert(lower_seq(s@.take(i as int + 1)) =~= lower_seq(s@.take(i as int)).push(
                lower_char(s@[i as int]),
            ));
        }
        i += 1;
    }
}

/// The lower-case hexadecimal digit for a value below 16.
pub open spec fn hex_digit(d: int) -> char {
    if d == 0 {
        '0'
    } else if d == 1 {
        '1'
    } else if d == 2 {
        '2'
    } else if d == 3 {
        '3'
    } else if d == 4 {
        '4'
    } else if d == 5 {
        '5'
    } else if d == 6 {
        '6'
    } else if d == 7 {
        '7'
    } else if d == 8 {
        '8'
    } else if d == 9 {
        '9'
    } else if d == 10 {
        'a'
    } else if d == 11 {
        'b'
    } else if d == 12 {
        'c'
    } else if d == 13 {
        'd'
    } else if d == 14 {
        'e'
    } else {
        'f'
    }
}

/// Hexadecimal digits of `v` (lower case, no leading zeros, at least one digit).
pub open spec fn hex_seq(v: int) -> Seq<char>
    decreases v,
{
    if v < 16 {
        seq![hex_digit(v)]
    } else {
        hex_seq(v / 16).push(hex_digit(v % 16))
    }
}

/// Hexadecimal rendering of `v` padded with zeros to at least four digits.
pub open spec fn hex04(v: int) -> Seq<char> {
    if v < 0x10 {
        seq!['0', '0', '0'] + hex_seq(v)
    } else if v < 0x100 {
        seq!['0', '0'] + hex_seq(v)
    } else if v < 0x1000 {
        seq!['0'] + hex_seq(v)
    } else {
        hex_seq(v)
    }
}

fn hex_digit_exec(d: u32) -> (r: char)
    requires
        d < 16,
    ensures
        r == hex_digit(d as int),
{
    if d == 0 {
        '0'
    } else if d == 1 {
        '1'
    } else if d == 2 {
        '2'
    } else if d == 3 {
        '3'
    } else if d == 4 {
        '4'
    } else if d == 5 {
        '5'
    } else if d == 6 {
        '6'
    } else if d == 7 {
        '7'
    } else if d == 8 {
        '8'
    } else if d == 9 {
        '9'
    } else if d == 10 {
        'a'
    } else if d == 11 {
        'b'
    } else if d == 12 {
        'c'
    } else if d == 13 {
        'd'
    } else if d == 14 {
        'e'
    } else {
        'f'
    }
}

fn hex_append(s: &mut String, v: u32)
    ensures
        final(s)@ == old(s)@ + hex_seq(v as int),
    decreases v,
{
    if v < 16 {
        let d = hex_digit_exec(v);
        push_char(s, d);
        proof {
            assert(old(s)@ + hex_seq(v as int) =~= old(s)@.push(hex_digit(v as int)));
        }
    } else {
        hex_append(s, v / 16);
        let d = hex_digit_exec(v % 16);
        push_char(s, d);
        proof {
            assert(old(s)@ + hex_seq(v as int) =~= (old(s)@ + hex_seq(v as int / 16)).push(
                hex_digit(v as int % 16),
            ));
        }
    }
}

/// Four-or-more-digit lower-case hexadecimal rendering of a codepoint.
pub fn hex04_of(v: u32) -> (r: String)
    ensures
        r@ == hex04(v as int),
{
    let mut s = String::new();
    if v < 0x10 {
        push_char(&mut s, '0');
        push_char(&mut s, '0');
        push_char(&mut s, '0');
    } else if v < 0x100 {
        push_char(&mut s, '0');
        push_char(&mut s, '0');
    } else if v < 0x1000 {
        push_char(&mut s, '0');
    }
    proof {
        if v < 0x10 {
            assert(s@ =~= seq!['0', '0', '0']);
        } else if v < 0x100 {
            assert(s@ =~= seq!['0', '0']);
        } else if v < 0x1000 {
            assert(s@ =~= seq!['0']);
        } else {
            assert(s@ =~= Seq::<char>::empty());
        }
    }
    hex_append(&mut s, v);
    proof {
        if v >= 0x1000 {
            assert(Seq::<char>::empty() + hex_seq(v as int) =~= hex_seq(v as int));
        }
    }
    s
}

/// `c` is an ASCII decimal digit.
pub open spec fn is_digit_char(c: char) -> bool {
    '0' as u32 <= c as u32 && c as u32 <= '9' as u32
}

/// Numeric value of a digit character.
pub open spec fn digit_val(c: char) -> int {
    c as u32 - '0' as u32
}

/// `s` is a non-empty string of decimal digits.
pub open spec fn is_dec_string(s: Seq<char>) -> bool {
    s.len() > 0 && forall|i: int| 0 <= i < s.len() ==> is_digit_char(s[i])
}

/// Numeric value of a digit string.
pub open spec fn dec_val(s: Seq<char>) -> int
    decreases s.len(),
{
    if s.len() == 0 {
        0
    } else {
        dec_val(s.drop_last()) * 10 + digit_val(s.last())
    }
}

proof fn lemma_dec_val_nonneg(s: Seq<char>)
    requires
        forall|i: int| 0 <= i < s.len() ==> is_digit_char(s[i]),
    ensures
        dec_val(s) >= 0,
    decreases s.len(),
{
    if s.len() > 0 {
        lemma_dec_val_nonneg(s.drop_last());
    }
}

proof fn lemma_dec_val_extend(s: Seq<char>, j: int)
    requires
        0 <= j <= s.len(),
        forall|i: int| 0 <= i < s.len() ==> is_digit_char(s[i]),
    ensures
        dec_val(s) >= dec_val(s.take(j)),
    decreases s.len() - j,
{
    if j < s.len() {
        lemma_dec_val_extend(s, j + 1);
        let t = s.take(j + 1);
        assert(t.drop_last() =~= s.take(j));
        lemma_dec_val_nonneg(s.take(j));
        assert(dec_val(t) == dec_val(s.take(j)) * 10 + digit_val(t.last()));
        assert(digit_val(t.last()) >= 0);
    } else {
        assert(s.take(j) =~= s);
    }
}

/// Parses a decimal codepoint key.  Returns the value exactly when the whole
/// string is a digit string whose value fits in `u32`.
pub fn parse_u32(s: &str) -> (r: Option<u32>)
    ensures
        match r {
            Some(v) => is_dec_string(s@) && dec_val(s@) == v as int,
            None => !is_dec_string(s@) || dec_val(s@) > u32::MAX as int,
        },
{
    let len = s.unicode_len();
    if len == 0 {
        return None;
    }
    let mut i: usize = 0;
    while i < len
        invariant
            i <= len,
            len == s@.len(),
            forall|k: int| 0 <= k < i ==> is_digit_char(s@[k]),
        decreases len - i,
    {
        let c = s.get_char(i);
        let cv = c as u32;
        if cv < '0' as u32 || cv > '9' as u32 {
            return None;
        }
        i += 1;
    }
    let mut acc: u64 = 0;
    let mut j: usize = 0;
    proof {
        assert(s@.take(0) =~= Seq::<char>::empty());
    }
    while j < len
        invariant
            j <= len,
            len == s@.len(),
            forall|k: int| 0 <= k < len ==> is_digit_char(s@[k]),
            acc <= u32::MAX,
            acc as int == dec_val(s@.take(j as int)),
        decreases len - j,
    {
        let c = s.get_char(j);
        let d = (c as u32) - ('0' as u32);
        let next: u64 = acc * 10 + (d as u64);
        proof {
            assert(s@.take(j as int + 1).drop_last() =~= s@.take(j as int));
            assert(dec_val(s@.take(j as int + 1)) == dec_val(s@.take(j as int)) * 10 + digit_val(
                s@[j as int],
            ));
        }
        if next > u32::MAX as u64 {
            proof {
                lemma_dec_val_extend(s@, j as int + 1);
            }
            return None;
        }
        acc = next;
        j += 1;
    }
    proof {
        assert(s@.take(len as int) =~= s@);
    }
    Some(acc as u32)
}

} // verus!

