use vstd::prelude::*;
use vstd::string::*;

verus! {

broadcast use vstd::string::group_string_axioms;

/// A decimal digit character.
pub open spec fn is_digit(c: char) -> bool {
    48 <= c as u32 && c as u32 <= 57
}

/// The numeric value of a decimal digit character.
pub open spec fn digit_val(c: char) -> int {
    c as u32 - 48
}

/// The character for one decimal digit.
pub open spec fn digit_char(d: int) -> char {
    if d == 0 {
        '0'
    } else if d == 1 {
        '1'
    } else if d == 2 {
        '2'
    } else if d == 3 {
        '3'
    } else if d == 4 {
        '4'
    } else if d == 5 {
        '5'
    } else if d == 6 {
        '6'
    } else if d == 7 {
        '7'
    } else if d == 8 {
        '8'
    } else {
        '9'
    }
}

/// The decimal digit string of a natural number, most significant digit first,
/// with no leading zeros (a single zero for 0).
pub open spec fn dec_digits(n: nat) -> Seq<char>
    decreases n,
{
    if n < 10 {
        seq![digit_char(n as int)]
    } else {
        dec_digits(n / 10) + seq![digit_char((n % 10) as int)]
    }
}

/// The numeric value of a digit string, read in base ten.
pub open spec fn digits_val(ds: Seq<char>) -> int
    decreases ds.len(),
{
    if ds.len() == 0 {
        0
    } else {
        digits_val(ds.drop_last()) * 10 + digit_val(ds.last())
    }
}

pub open spec fn all_digits(ds: Seq<char>) -> bool {
    forall|j: int| 0 <= j < ds.len() ==> is_digit(#[trigger] ds[j])
}

/// The length of the longest digit prefix of a character sequence.
pub open spec fn digit_run(s: Seq<char>) -> int
    decreases s.len(),
{
    if s.len() == 0 || !is_digit(s[0]) {
        0
    } else {
        1 + digit_run(s.drop_first())
    }
}

pub open spec fn contains_newline(s: Seq<char>) -> bool {
    exists|i: int| 0 <= i < s.len() && s[i] == '\n'
}

/// The wire form of a normal entry: `put <key> <value>`.
pub open spec fn encoded(key: u16, value: Seq<char>) -> Seq<char> {
    seq!['p', 'u', 't', ' '] + dec_digits(key as nat) + seq![' '] + value
}

/// What decoding a payload yields: the key/value pair of a well-formed normal
/// entry, or nothing for a payload that is a protocol violation.  A payload is
/// well formed when it is `put `, then at least one digit whose value fits in
/// a key, then one space, then a non-empty value free of newlines.
pub open spec fn decode_spec(s: Seq<char>) -> Option<(u16, Seq<char>)> {
    if s.len() < 4 || s[0] != 'p' || s[1] != 'u' || s[2] != 't' || s[3] != ' ' {
        None
    } else {
        let rest = s.skip(4);
        let d = digit_run(rest);
        if d == 0 || d >= rest.len() || rest[d] != ' ' {
            None
        } else {
            let key = digits_val(rest.take(d));
            let value = rest.skip(d + 1);
            if key > u16::MAX || value.len() == 0 || contains_newline(value) {
                None
            } else {
                Some((key as u16, value))
            }
        }
    }
}

/// The string holding one decimal digit.
fn digit_str(d: u16) -> (r: &'static str)
    requires
        d < 10,
    ensures
        r@ =~= seq![digit_char(d as int)],
{
    proof {
        reveal_strlit("0");
        reveal_strlit("1");
        reveal_strlit("2");
        reveal_strlit("3");
        reveal_strlit("4");
        reveal_strlit("5");
        reveal_strlit("6");
        reveal_strlit("7");
        reveal_strlit("8");
        reveal_strlit("9");
    }
    match d {
        0 => "0",
        1 => "1",
        2 => "2",
        3 => "3",
        4 => "4",
        5 => "5",
        6 => "6",
        7 => "7",
        8 => "8",
        _ => "9",
    }
}

/// The decimal digit string of a key.
pub fn key_digits(n: u16) -> (r: String)
    ensures
        r@ == dec_digits(n as nat),
    decreases n,
{
    if n < 10 {
        String::from_str(digit_str(n))
    } else {
        let mut r = key_digits(n / 10);
        r.append(digit_str(n % 10));
        assert(r@ =~= dec_digits(n as nat));
        r
    }
}

/// Encodes a normal entry as `put <key> <value>`.
pub fn encode_entry(key: u16, value: &str) -> (r: String)
    ensures
        r@ == encoded(key, value@),
{
    proof {
        reveal_strlit("put ");
        reveal_strlit(" ");
    }
    let mut s = String::from_str("put ");
    let d = key_digits(key);
    s.append(d.as_str());
    s.append(" ");
    s.append(value);
    assert(s@ =~= encoded(key, value@));
    s
}

/// Decodes a payload, yielding the key/value pair of a well-formed normal
/// entry and nothing for a protocol violation.
pub fn decode_entry(s: &str) -> (r: Option<(u16, String)>)
    ensures
        match r {
            Some(kv) => decode_spec(s@) == Some((kv.0, kv.1@)),
            None => decode_spec(s@) is None,
        },
{
    let n = s.unicode_len();
    if n < 4 {
        return None;
    }
    if s.get_char(0) != 'p' || s.get_char(1) != 'u' || s.get_char(2) != 't' || s.get_char(3) != ' '
    {
        return None;
    }
    let mut i: usize = 4;
    let mut key: u32 = 0;
    while i < n && is_digit_exec(s.get_char(i))
        invariant
            4 <= i <= n,
            n == s@.len(),
            s@[0] == 'p' && s@[1] == 'u' && s@[2] == 't' && s@[3] == ' ',
            forall|j: int| 4 <= j < i ==> is_digit(#[trigger] s@[j]),
            digits_val(s@.subrange(4, i as int)) <= u16::MAX ==> key == digits_val(
                s@.subrange(4, i as int),
            ),
            digits_val(s@.subrange(4, i as int)) > u16::MAX ==> key > u16::MAX,
            key <= 0xffff_ffff,
        decreases n - i,
    {
        let c = s.get_char(i);
        proof {
            assert(s@.subrange(4, i + 1).drop_last() =~= s@.subrange(4, i as int));
            assert(s@.subrange(4, i + 1).last() == s@[i as int]);
        }
        if key <= u16::MAX as u32 {
            key = key * 10 + (c as u32 - 48);
        }
        i += 1;
    }
    proof {
        lemma_digit_run_value(s@.skip(4), i - 4);
        assert(s@.skip(4).take(i - 4) =~= s@.subrange(4, i as int));
    }
    if i == 4 {
        return None;
    }
    if i >= n {
        return None;
    }
    if s.get_char(i) != ' ' {
        return None;
    }
    if key > u16::MAX as u32 {
        return None;
    }
    if i + 1 >= n {
        return None;
    }
    let mut j: usize = i + 1;
    while j < n
        invariant
            4 < i,
            i + 1 < n,
            i + 1 <= j <= n,
            n == s@.len(),
            s@[0] == 'p' && s@[1] == 'u' && s@[2] == 't' && s@[3] == ' ',
            digit_run(s@.skip(4)) == i - 4,
            s@[i as int] == ' ',
            key <= u16::MAX,
            key == digits_val(s@.subrange(4, i as int)),
            forall|l: int| i + 1 <= l < j ==> s@[l] != '\n',
        decreases n - j,
    {
        if s.get_char(j) == '\n' {
            proof {
                let rest = s@.skip(4);
                let d = digit_run(rest);
                assert(rest.skip(d + 1)[j - i - 1] == rest[d + 1 + (j - i - 1)]);
                assert(rest[j - 4] == s@[j as int]);
                assert(contains_newline(rest.skip(d + 1)));
            }
            return None;
        }
        j += 1;
    }
    let value = String::from_str(s.substring_char(i + 1, n));
    proof {
        assert(value@ =~= s@.skip(4).skip(digit_run(s@.skip(4)) + 1));
        assert(!contains_newline(value@)) by {
            assert(forall|l: int|
                0 <= l < value@.len() ==> #[trigger] value@[l] == s@[i + 1 + l] && s@[i + 1 + l]
                    != '\n');
        }
    }
    Some((key as u16, value))
}

/// Whether a character is a decimal digit.
fn is_digit_exec(c: char) -> (r: bool)
    ensures
        r == is_digit(c),
{
    let u = c as u32;
    48 <= u && u <= 57
}

/// The longest digit prefix of `t` has length `k` exactly when the first `k`
/// characters are digits and the next one, if any, is not.
proof fn lemma_digit_run_value(t: Seq<char>, k: int)
    requires
        0 <= k <= t.len(),
        forall|j: int| 0 <= j < k ==> is_digit(#[trigger] t[j]),
        k == t.len() || !is_digit(t[k]),
    ensures
        digit_run(t) == k,
    decreases k,
{
    if k == 0 {
    } else {
        assert(is_digit(t[0]));
        lemma_digit_run_value(t.drop_first(), k - 1);
    }
}

/// Every character of a decimal digit string is a digit, and it is non-empty.
pub proof fn lemma_dec_digits_wf(n: nat)
    ensures
        all_digits(dec_digits(n)),
        dec_digits(n).len() >= 1,
    decreases n,
{
    if n < 10 {
    } else {
        lemma_dec_digits_wf(n / 10);
    }
}

/// The digit character of `d` reads back as `d`.
proof fn lemma_digit_char_val(d: int)
    requires
        0 <= d <= 9,
    ensures
        digit_val(digit_char(d)) == d,
{
    assert('0' as u32 == 48);
    assert('1' as u32 == 49);
    assert('2' as u32 == 50);
    assert('3' as u32 == 51);
    assert('4' as u32 == 52);
    assert('5' as u32 == 53);
    assert('6' as u32 == 54);
    assert('7' as u32 == 55);
    assert('8' as u32 == 56);
    assert('9' as u32 == 57);
}

/// Reading the decimal digit string of `n` back in base ten yields `n`.
pub proof fn lemma_digits_val_dec_digits(n: nat)
    ensures
        digits_val(dec_digits(n)) == n,
    decreases n,
{
    if n < 10 {
        lemma_digit_char_val(n as int);
        let ds = dec_digits(n);
        assert(ds == seq![digit_char(n as int)]);
        assert(ds.drop_last() =~= Seq::<char>::empty());
        assert(digits_val(ds.drop_last()) == 0);
        assert(ds.last() == digit_char(n as int));
        assert(digits_val(ds) == digit_val(digit_char(n as int)));
    } else {
        lemma_digits_val_dec_digits(n / 10);
        lemma_digit_char_val((n % 10) as int);
        let ds = dec_digits(n);
        assert(ds == dec_digits(n / 10) + seq![digit_char((n % 10) as int)]);
        assert(ds.len() == dec_digits(n / 10).len() + 1);
        assert(ds.drop_last() =~= dec_digits(n / 10));
        assert(ds.last() == digit_char((n % 10) as int));
        assert(digits_val(ds) == digits_val(dec_digits(n / 10)) * 10 + digit_val(
            digit_char((n % 10) as int),
        ));
        assert(digits_val(ds) == (n / 10) * 10 + (n % 10));
        assert((n / 10) * 10 + (n % 10) == n);
    }
}

/// The digit run of a digit string followed by a non-digit covers exactly the
/// digit string.
proof fn lemma_digit_run_concat(a: Seq<char>, b: Seq<char>)
    requires
        all_digits(a),
        b.len() > 0,
        !is_digit(b[0]),
    ensures
        digit_run(a + b) == a.len(),
{
    lemma_digit_run_value(a + b, a.len() as int);
}

/// Encoding round-trip: decoding the encoding of a key in range and a
/// non-empty, newline-free value yields exactly that pair back.
pub proof fn lemma_encode_decode_round_trip(key: u16, value: Seq<char>)
    requires
        value.len() > 0,
        !contains_newline(value),
    ensures
        decode_spec(encoded(key, value)) == Some((key, value)),
{
    let s = encoded(key, value);
    let ds = dec_digits(key as nat);
    lemma_dec_digits_wf(key as nat);
    lemma_digits_val_dec_digits(key as nat);
    assert(s.skip(4) =~= ds + (seq![' '] + value));
    lemma_digit_run_concat(ds, seq![' '] + value);
    let rest = s.skip(4);
    let d = digit_run(rest);
    assert(d == ds.len());
    assert(rest.take(d) =~= ds);
    assert(rest[d] == ' ');
    assert(rest.skip(d + 1) =~= value);
}

} // verus!
