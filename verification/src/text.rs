//! Verified helpers for working with text: equality, character
//! extraction, substring search, and decimal parsing and formatting.
use vstd::prelude::*;

verus! {

/// String equality by view, usable from verified code.
pub fn str_eq(a: &str, b: &str) -> (r: bool)
    ensures
        r == (a@ == b@),
{
    let x: String = a.to_owned();
    let y: String = b.to_owned();
    x == y
}

/// Relies on str::chars: yields exactly the characters of the string.
#[verifier::external_body]
pub fn str_chars(s: &str) -> (v: Vec<char>)
    ensures
        v@ == s@,
{
    s.chars().collect()
}

/// Relies on char's FromIterator for String: the collected string holds
/// exactly the given characters.
#[verifier::external_body]
pub fn chars_to_string(v: &Vec<char>) -> (r: String)
    ensures
        r@ == v@,
{
    v.iter().collect()
}

/// `needle` occurs as a contiguous run inside `hay`.
pub open spec fn text_contains(hay: Seq<char>, needle: Seq<char>) -> bool {
    exists|i: int|
        0 <= i && i + needle.len() <= hay.len() && #[trigger] hay.subrange(i, i + needle.len())
            == needle
}

fn match_at(hay: &Vec<char>, needle: &Vec<char>, at: usize) -> (r: bool)
    requires
        at + needle@.len() <= hay@.len(),
    ensures
        r == (hay@.subrange(at as int, at + needle@.len()) == needle@),
{
    let hl: usize = hay.len();
    let mut j: usize = 0;
    while j < needle.len()
        invariant
            0 <= j <= needle@.len(),
            at + needle@.len() <= hay@.len(),
            hl == hay@.len(),
            forall|k: int| 0 <= k < j ==> hay@[at + k] == needle@[k],
        decreases needle@.len() - j,
    {
        if hay[at + j] != needle[j] {
            proof {
                assert(hay@.subrange(at as int, at + needle@.len())[j as int] != needle@[j as int]);
            }
            return false;
        }
        j = j + 1;
    }
    proof {
        assert(hay@.subrange(at as int, at + needle@.len()) =~= needle@);
    }
    true
}

/// Substring search: does `needle` occur anywhere in `hay`?
pub fn contains_str(hay: &str, needle: &str) -> (r: bool)
    ensures
        r == text_contains(hay@, needle@),
{
    let h = str_chars(hay);
    let n = str_chars(needle);
    if n.len() == 0 {
        proof {
            assert(text_contains(hay@, needle@)) by {
                assert(hay@.subrange(0, 0 + needle@.len() as int) =~= needle@);
            }
        }
        return true;
    }
    if n.len() > h.len() {
        return false;
    }
    let last_start: usize = h.len() - n.len();
    let mut i: usize = 0;
    loop
        invariant
            0 <= i <= last_start + 1,
            last_start == h@.len() - n@.len(),
            last_start + n@.len() <= usize::MAX,
            1 <= n@.len() <= h@.len(),
            h@ == hay@,
            n@ == needle@,
            forall|k: int|
                0 <= k < i ==> #[trigger] hay@.subrange(k, k + needle@.len()) != needle@,
        ensures
            i <= last_start + 1,
            (exists|k: int|
                0 <= k && k + needle@.len() <= hay@.len() && #[trigger] hay@.subrange(
                    k,
                    k + needle@.len(),
                ) == needle@) ==> i <= last_start,
            i <= last_start ==> hay@.subrange(i as int, i + needle@.len()) == needle@,
        decreases last_start + 1 - i,
    {
        if i > last_start {
            break ;
        }
        if match_at(&h, &n, i) {
            break ;
        }
        i = i + 1;
    }
    i <= last_start
}

pub open spec fn is_digit(c: char) -> bool {
    '0' <= c <= '9'
}

pub open spec fn digit_val(c: char) -> int {
    c as int - '0' as int
}

/// The value of a run of decimal digits, most significant first.
pub open spec fn digits_val(s: Seq<char>) -> int
    decreases s.len(),
{
    if s.len() == 0 {
        0
    } else {
        digits_val(s.drop_last()) * 10 + digit_val(s.last())
    }
}

pub open spec fn all_digits(s: Seq<char>) -> bool {
    forall|i: int| 0 <= i < s.len() ==> is_digit(#[trigger] s[i])
}

/// The digit part of an unsigned decimal literal: everything after an
/// optional leading plus sign.
pub open spec fn digit_part(s: Seq<char>) -> Seq<char> {
    if s.len() > 0 && s[0] == '+' {
        s.drop_first()
    } else {
        s
    }
}

/// The texts accepted as a `u32`: an optional plus sign, then one or
/// more decimal digits, denoting a value that fits in 32 bits.
pub open spec fn is_u32_text(s: Seq<char>) -> bool {
    &&& digit_part(s).len() > 0
    &&& all_digits(digit_part(s))
    &&& digits_val(digit_part(s)) <= u32::MAX
}

pub open spec fn u32_text_val(s: Seq<char>) -> int {
    digits_val(digit_part(s))
}

/// If a prefix of a digit run already exceeds `u32::MAX`, the whole run does.
proof fn lemma_digits_val_grow(s: Seq<char>, k: int)
    requires
        all_digits(s),
        0 <= k <= s.len(),
        digits_val(s.take(k)) > u32::MAX,
    ensures
        digits_val(s) > u32::MAX,
    decreases s.len() - k,
{
    if k < s.len() {
        assert(s.take(k + 1).drop_last() =~= s.take(k));
        assert(all_digits(s.take(k + 1)));
        assert(is_digit(s.take(k + 1).last()));
        assert(digits_val(s.take(k + 1)) == digits_val(s.take(k)) * 10 + digit_val(
            s.take(k + 1).last(),
        ));
        assert(digits_val(s.take(k)) * 10 >= digits_val(s.take(k))) by (nonlinear_arith)
            requires
                digits_val(s.take(k)) > 0,
        ;
        lemma_digits_val_grow(s, k + 1);
    } else {
        assert(s.take(k) =~= s);
    }
}

/// Parse an unsigned 32-bit decimal, mirroring what `u32` accepts from
/// text: optional `+`, then digits, rejecting overflow.
#[verifier::loop_isolation(false)]
pub fn parse_u32_text(s: &str) -> (r: Option<u32>)
    ensures
        r is Some <==> is_u32_text(s@),
        r matches Some(v) ==> v == u32_text_val(s@),
{
    let cs = str_chars(s);
    let start: usize = if cs.len() > 0 && cs[0] == '+' {
        1
    } else {
        0
    };
    let ghost d = digit_part(s@);
    proof {
        if start == 1 {
            assert(d =~= cs@.skip(1));
        } else {
            assert(d =~= cs@.skip(0));
            assert(d =~= cs@);
        }
    }
    if cs.len() == start {
        return None;
    }
    let mut acc: u64 = 0;
    let mut i: usize = start;
    while i < cs.len()
        invariant
            start <= i <= cs@.len(),
            start < cs@.len(),
            start == 0 || start == 1,
            d == digit_part(s@),
            d =~= cs@.skip(start as int),
            all_digits(d.take(i - start)),
            acc == digits_val(d.take(i - start)),
            acc <= u32::MAX,
        decreases cs@.len() - i,
    {
        let c = cs[i];
        proof {
            assert(d[i - start] == c);
        }
        let dv: u64 = match char_digit(c) {
            Some(v) => v as u64,
            None => {
                proof {
                    assert(!is_digit(d[i - start]));
                }
                return None;
            },
        };
        proof {
            assert(is_digit(c));
            assert(digit_val(c) == dv);
            assert(d.take(i + 1 - start).drop_last() =~= d.take(i - start));
            assert(d.take(i + 1 - start).last() == c);
        }
        let next: u64 = acc * 10 + dv;
        if next > 0xffff_ffff {
            proof {
                assert(all_digits(d.take(i + 1 - start)));
                assert(digits_val(d.take(i + 1 - start)) == next);
                if all_digits(d) {
                    lemma_digits_val_grow(d, i + 1 - start);
                }
            }
            return None;
        }
        acc = next;
        i = i + 1;
    }
    proof {
        assert(d.take(d.len() as int) =~= d);
    }
    Some(acc as u32)
}

/// The canonical decimal text of `n`: digits only, one digit at least,
/// and no leading zero unless the value itself is zero.
pub open spec fn dec_digits(n: int) -> Seq<char>
    decreases n,
{
    if n < 0 {
        Seq::empty()
    } else if n < 10 {
        seq![dec_digit_char(n)]
    } else {
        dec_digits(n / 10).push(dec_digit_char(n % 10))
    }
}

pub open spec fn dec_digit_char(d: int) -> char {
    if d == 0 {
        '0'
    } else if d == 1 {
        '1'
    } else if d == 2 {
        '2'
    } else if d == 3 {
        '3'
    } else if d == 4 {
        '4'
    } else if d == 5 {
        '5'
    } else if d == 6 {
        '6'
    } else if d == 7 {
        '7'
    } else if d == 8 {
        '8'
    } else {
        '9'
    }
}

fn char_digit(c: char) -> (r: Option<u32>)
    ensures
        r is Some <==> is_digit(c),
        r matches Some(v) ==> v == digit_val(c),
{
    match c {
        '0' => Some(0),
        '1' => Some(1),
        '2' => Some(2),
        '3' => Some(3),
        '4' => Some(4),
        '5' => Some(5),
        '6' => Some(6),
        '7' => Some(7),
        '8' => Some(8),
        '9' => Some(9),
        _ => None,
    }
}

fn digit_char(d: u32) -> (c: char)
    requires
        d < 10,
    ensures
        c == dec_digit_char(d as int),
        is_digit(c),
        digit_val(c) == d,
{
    let table: [char; 10] = ['0', '1', '2', '3', '4', '5', '6', '7', '8', '9'];
    table[d as usize]
}

fn push_dec_digits(n: u32, out: &mut Vec<char>)
    ensures
        final(out)@ == old(out)@ + dec_digits(n as int),
    decreases n,
{
    if n < 10 {
        let c = digit_char(n);
        out.push(c);
        proof {
            assert(old(out)@ + dec_digits(n as int) =~= old(out)@.push(dec_digit_char(n as int)));
        }
    } else {
        push_dec_digits(n / 10, out);
        let c = digit_char(n % 10);
        out.push(c);
        proof {
            assert(old(out)@ + dec_digits(n as int) =~= (old(out)@ + dec_digits(n as int / 10)).push(
                dec_digit_char(n as int % 10),
            ));
        }
    }
}

/// Render an unsigned 32-bit value in decimal.
pub fn u32_to_text(n: u32) -> (r: String)
    ensures
        r@ == dec_digits(n as int),
{
    let mut v: Vec<char> = Vec::new();
    push_dec_digits(n, &mut v);
    proof {
        assert(Seq::<char>::empty() + dec_digits(n as int) =~= dec_digits(n as int));
    }
    chars_to_string(&v)
}

/// The decimal rendering really denotes the number it was made from.
pub proof fn lemma_dec_digits_val(n: int)
    requires
        n >= 0,
    ensures
        all_digits(dec_digits(n)),
        dec_digits(n).len() > 0,
        digits_val(dec_digits(n)) == n,
        dec_digits(n).len() > 1 ==> dec_digits(n)[0] != '0',
    decreases n,
{
    if n < 10 {
        assert(dec_digits(n) =~= seq![dec_digit_char(n)]);
        assert(dec_digits(n).drop_last() =~= Seq::<char>::empty());
        assert(dec_digits(n).last() == dec_digit_char(n));
        assert(digit_val(dec_digit_char(n)) == n);
        assert(digits_val(dec_digits(n)) == digits_val(dec_digits(n).drop_last()) * 10 + digit_val(
            dec_digits(n).last(),
        ));
        assert(digits_val(dec_digits(n)) == n);
    } else {
        lemma_dec_digits_val(n / 10);
        let s = dec_digits(n);
        assert(s =~= dec_digits(n / 10).push(dec_digit_char(n % 10)));
        assert(s.drop_last() =~= dec_digits(n / 10));
        assert(digit_val(dec_digit_char(n % 10)) == n % 10);
        assert(digits_val(s) == (n / 10) * 10 + n % 10);
        vstd::arithmetic::div_mod::lemma_fundamental_div_mod(n, 10);
        assert((n / 10) * 10 + n % 10 == n);
        assert(all_digits(s)) by {
            assert(forall|i: int|
                0 <= i < s.len() - 1 ==> s[i] == #[trigger] dec_digits(n / 10)[i]);
        }
        assert(s[0] == dec_digits(n / 10)[0]);
        assert(n / 10 >= 1);
        if n / 10 < 10 {
            assert(dec_digits(n / 10) =~= seq![dec_digit_char(n / 10)]);
            assert(s[0] == dec_digit_char(n / 10));
            assert(s[0] != '0');
        } else {
            lemma_dec_digits_pos(n / 100);
            assert(dec_digits(n / 10).len() > 1);
            assert(s[0] != '0');
        }
    }
}

proof fn lemma_dec_digits_pos(n: int)
    ensures
        n >= 0 ==> dec_digits(n).len() > 0,
{
}

} // verus!
