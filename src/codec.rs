//! Hexadecimal text: the encoding of digests and the position keys of an index.
use vstd::prelude::*;

verus! {

/// The lowercase hexadecimal digits, by value.
pub open spec fn hex_table() -> Seq<char> {
    seq!['0', '1', '2', '3', '4', '5', '6', '7', '8', '9', 'a', 'b', 'c', 'd', 'e', 'f']
}

/// Two lowercase digits for each byte, the high nibble first.
pub open spec fn hex_of(b: Seq<u8>) -> Seq<char> {
    Seq::new(
        2 * b.len(),
        |i: int|
            if i % 2 == 0 {
                hex_table()[(b[i / 2] / 16) as int]
            } else {
                hex_table()[(b[i / 2] % 16) as int]
            },
    )
}

pub open spec fn is_hex_char(c: char) -> bool {
    ('0' <= c && c <= '9') || ('a' <= c && c <= 'f') || ('A' <= c && c <= 'F')
}

pub open spec fn hex_char_value(c: char) -> int {
    if '0' <= c && c <= '9' {
        c as int - '0' as int
    } else if 'a' <= c && c <= 'f' {
        c as int - 'a' as int + 10
    } else {
        c as int - 'A' as int + 10
    }
}

/// Text that decodes to bytes: an even number of hex digits of either case.
pub open spec fn is_hex_text(s: Seq<char>) -> bool {
    &&& s.len() % 2 == 0
    &&& forall|i: int| 0 <= i < s.len() ==> is_hex_char(#[trigger] s[i])
}

/// The bytes that hex text stands for, two digits to a byte.
pub open spec fn hex_bytes(s: Seq<char>) -> Seq<u8> {
    Seq::new(
        s.len() / 2,
        |i: int| (16 * hex_char_value(s[2 * i]) + hex_char_value(s[2 * i + 1])) as u8,
    )
}

/// The number that a string of hex digits stands for, most significant first.
pub open spec fn hex_value(s: Seq<char>) -> nat
    decreases s.len(),
{
    if s.len() == 0 {
        0
    } else {
        (16 * hex_value(s.drop_last()) + hex_char_value(s.last())) as nat
    }
}

/// The `width` lowest hex digits of `n`, lowercase, most significant first.
pub open spec fn hex_digits(n: nat, width: nat) -> Seq<char>
    decreases width,
{
    if width == 0 {
        Seq::empty()
    } else {
        hex_digits(n / 16, (width - 1) as nat).push(hex_table()[(n % 16) as int])
    }
}

/// Number of digits in a position key.
pub const KEY_WIDTH: usize = 32;

/// The key under which the chunk at `position` is listed: 32 lowercase hex
/// digits, zero-padded.
pub open spec fn key_text(position: nat) -> Seq<char> {
    hex_digits(position, KEY_WIDTH as nat)
}

/// The digits of a position key: a leading `+` is allowed before at least
/// one digit.
pub open spec fn key_digits(s: Seq<char>) -> Seq<char> {
    if s.len() > 1 && s[0] == '+' {
        s.drop_first()
    } else {
        s
    }
}

/// The position that a key names, where it is a base-16 number that fits
/// in `usize`.
pub open spec fn key_position(s: Seq<char>) -> Option<usize> {
    let d = key_digits(s);
    if d.len() > 0 && (forall|i: int| 0 <= i < d.len() ==> is_hex_char(#[trigger] d[i]))
        && hex_value(d) <= usize::MAX {
        Some(hex_value(d) as usize)
    } else {
        None
    }
}

/// Each digit of the table is a lowercase hex digit of its own value.
pub proof fn lemma_hex_table_digit(d: int)
    requires
        0 <= d < 16,
    ensures
        is_hex_char(hex_table()[d]),
        hex_char_value(hex_table()[d]) == d,
        'a' <= hex_table()[d] && hex_table()[d] <= 'f' || '0' <= hex_table()[d] && hex_table()[d]
            <= '9',
{
}

/// Decoding the encoding of bytes gives the bytes back.
pub proof fn lemma_hex_round_trip(b: Seq<u8>)
    ensures
        is_hex_text(hex_of(b)),
        hex_bytes(hex_of(b)) == b,
{
    let h = hex_of(b);
    assert forall|i: int| 0 <= i < h.len() implies is_hex_char(#[trigger] h[i]) by {
        lemma_hex_table_digit((b[i / 2] / 16) as int);
        lemma_hex_table_digit((b[i / 2] % 16) as int);
    }
    assert(h.len() / 2 == b.len());
    assert forall|i: int| 0 <= i < b.len() implies #[trigger] hex_bytes(h)[i] == b[i] by {
        assert((2 * i) / 2 == i && (2 * i) % 2 == 0);
        assert((2 * i + 1) / 2 == i && (2 * i + 1) % 2 == 1);
        lemma_hex_table_digit((b[i] / 16) as int);
        lemma_hex_table_digit((b[i] % 16) as int);
    }
    assert(hex_bytes(h) =~= b);
}

/// The digits of `n` read back give `n`, when `n` has no more digits than
/// the width.
pub proof fn lemma_hex_digits_value(n: nat, width: nat)
    requires
        n < pow16(width),
    ensures
        hex_digits(n, width).len() == width,
        hex_value(hex_digits(n, width)) == n,
        forall|i: int|
            0 <= i < width ==> is_hex_char(#[trigger] hex_digits(n, width)[i]),
    decreases width,
{
    if width > 0 {
        let w1 = (width - 1) as nat;
        assert(n / 16 < pow16(w1)) by (nonlinear_arith)
            requires
                n < pow16(width),
                pow16(width) == 16 * pow16(w1),
        ;
        lemma_hex_digits_value(n / 16, w1);
        let d = hex_digits(n, width);
        lemma_hex_table_digit((n % 16) as int);
        assert(d.drop_last() =~= hex_digits(n / 16, w1));
    }
}

pub open spec fn pow16(width: nat) -> nat
    decreases width,
{
    if width == 0 {
        1
    } else {
        16 * pow16((width - 1) as nat)
    }
}

proof fn lemma_pow16_grows(a: nat, b: nat)
    requires
        a <= b,
    ensures
        pow16(a) <= pow16(b),
    decreases b,
{
    if a < b {
        lemma_pow16_grows(a, (b - 1) as nat);
    }
}

/// Every position key reads back as the position it was made from.
pub proof fn lemma_key_round_trip(position: usize)
    ensures
        key_text(position as nat).len() == KEY_WIDTH,
        key_position(key_text(position as nat)) == Some(position),
{
    reveal_with_fuel(pow16, 17);
    assert(pow16(16) == 0x1_0000_0000_0000_0000);
    lemma_pow16_grows(16, 32);
    lemma_hex_digits_value(position as nat, 32);
    let t = key_text(position as nat);
    lemma_hex_table_digit(0);
    lemma_hex_table_digit((position as nat % 16) as int);
    assert(t[0] != '+');
    assert(key_digits(t) == t);
}

/// Relies on hex::encode: two lowercase digits for each byte, the high
/// nibble first.
#[verifier::external_body]
pub(crate) fn encode_hex(b: &[u8]) -> (r: String)
    ensures
        r@ == hex_of(b@),
{
    hex::encode(b)
}

#[verifier::external_type_specification]
#[verifier::external_body]
pub struct ExFromHexError(hex::FromHexError);

/// Relies on hex::decode: an even number of digits of either case decodes
/// two digits to a byte; anything else is an error. The text's bytes are
/// its characters exactly when all of them are hex digits.
#[verifier::external_body]
pub(crate) fn decode_hex(s: &str) -> (r: Result<Vec<u8>, hex::FromHexError>)
    ensures
        r is Ok <==> is_hex_text(s@),
        r matches Ok(v) ==> v@ == hex_bytes(s@),
{
    hex::decode(s)
}

proof fn lemma_hex_value_grows(s: Seq<char>, j: int)
    requires
        0 <= j <= s.len(),
        forall|i: int| 0 <= i < s.len() ==> is_hex_char(#[trigger] s[i]),
    ensures
        hex_value(s.take(j)) <= hex_value(s),
    decreases s.len(),
{
    if j < s.len() {
        let t = s.drop_last();
        assert forall|i: int| 0 <= i < t.len() implies is_hex_char(#[trigger] t[i]) by {
            assert(t[i] == s[i]);
        }
        lemma_hex_value_grows(t, j);
        assert(t.take(j) =~= s.take(j));
    } else {
        assert(s.take(j) =~= s);
    }
}

/// The key under which the chunk at `position` is listed in an index.
pub fn position_key(position: usize) -> (r: String)
    ensures
        r@ == key_text(position as nat),
{
    let table = "0123456789abcdef";
    proof {
        reveal_strlit("0123456789abcdef");
    }
    assert(table@ == hex_table());
    assert(table.is_ascii());
    // digit values, least significant first
    let mut vals: Vec<u8> = Vec::new();
    let ghost mut suffix: Seq<char> = Seq::empty();
    let mut m: usize = position;
    let mut k: usize = 0;
    while k < KEY_WIDTH
        invariant
            k <= KEY_WIDTH,
            vals@.len() == k,
            suffix.len() == k,
            hex_digits(position as nat, KEY_WIDTH as nat) == hex_digits(
                m as nat,
                (KEY_WIDTH - k) as nat,
            ) + suffix,
            forall|j: int| 0 <= j < k ==> #[trigger] vals@[j] < 16,
            forall|j: int|
                0 <= j < k ==> #[trigger] suffix[j] == hex_table()[vals@[k - 1 - j] as int],
        decreases KEY_WIDTH - k,
    {
        let d = (m % 16) as u8;
        let ghost old_suffix = suffix;
        let ghost w = (KEY_WIDTH - k - 1) as nat;
        proof {
            suffix = seq![hex_table()[d as int]] + suffix;
            assert(hex_digits(m as nat, w + 1) == hex_digits((m / 16) as nat, w).push(
                hex_table()[d as int],
            ));
            assert(hex_digits((m / 16) as nat, w).push(hex_table()[d as int]) + old_suffix
                =~= hex_digits((m / 16) as nat, w) + suffix);
        }
        vals.push(d);
        m = m / 16;
        k = k + 1;
        assert forall|j: int| 0 <= j < k implies #[trigger] suffix[j] == hex_table()[vals@[k
            - 1 - j] as int] by {
            if j > 0 {
                assert(suffix[j] == old_suffix[j - 1]);
            }
        }
    }
    assert(hex_digits(m as nat, 0) + suffix =~= suffix);
    let mut r = String::new();
    let mut i: usize = 0;
    while i < KEY_WIDTH
        invariant
            i <= KEY_WIDTH,
            vals@.len() == KEY_WIDTH,
            suffix.len() == KEY_WIDTH,
            table@ == hex_table(),
            table.is_ascii(),
            forall|j: int| 0 <= j < KEY_WIDTH ==> #[trigger] vals@[j] < 16,
            forall|j: int|
                0 <= j < KEY_WIDTH ==> #[trigger] suffix[j] == hex_table()[vals@[KEY_WIDTH - 1
                    - j] as int],
            r@ == suffix.take(i as int),
        decreases KEY_WIDTH - i,
    {
        let v = vals[KEY_WIDTH - 1 - i] as usize;
        let digit = table.substring_ascii(v, v + 1);
        r.append(digit);
        i = i + 1;
        assert(r@ =~= suffix.take(i as int));
    }
    assert(suffix.take(KEY_WIDTH as int) =~= suffix);
    r
}

/// The position that an index key names: base-16 digits of either case,
/// after an optional `+`, whose value fits in `usize`.
pub fn parse_key(key: &str) -> (r: Option<usize>)
    ensures
        r == key_position(key@),
{
    let n = key.unicode_len();
    let mut start: usize = 0;
    if n > 1 && key.get_char(0) == '+' {
        start = 1;
    }
    let ghost d = key_digits(key@);
    assert(d =~= key@.subrange(start as int, n as int));
    if start >= n {
        return None;
    }
    let mut acc: usize = 0;
    let mut i: usize = start;
    while i < n
        invariant
            start <= i <= n,
            n == key@.len(),
            d == key@.subrange(start as int, n as int),
            d == key_digits(key@),
            d.len() > 0,
            acc as nat == hex_value(d.take(i - start)),
            forall|j: int| 0 <= j < i - start ==> is_hex_char(#[trigger] d[j]),
        decreases n - i,
    {
        let c = key.get_char(i);
        assert(c == d[i - start]);
        let v = match digit_value(c) {
            Some(v) => v,
            None => {
                assert(!is_hex_char(d[i - start]));
                return None;
            },
        };
        assert(d.take(i - start + 1).drop_last() =~= d.take(i - start));
        assert(hex_value(d.take(i - start + 1)) == 16 * acc + v);
        let next = acc.checked_mul(16);
        if next.is_none() {
            proof {
                if forall|j: int| 0 <= j < d.len() ==> is_hex_char(#[trigger] d[j]) {
                    lemma_hex_value_grows(d, i - start + 1);
                }
            }
            return None;
        }
        let next = next.unwrap().checked_add(v as usize);
        if next.is_none() {
            proof {
                if forall|j: int| 0 <= j < d.len() ==> is_hex_char(#[trigger] d[j]) {
                    lemma_hex_value_grows(d, i - start + 1);
                }
            }
            return None;
        }
        acc = next.unwrap();
        i = i + 1;
    }
    assert(d.take(n - start) =~= d);
    Some(acc)
}

/// The value of one hex digit of either case.
fn digit_value(c: char) -> (r: Option<u8>)
    ensures
        r is Some <==> is_hex_char(c),
        r matches Some(v) ==> v as int == hex_char_value(c) && v < 16,
{
    if '0' <= c && c <= '9' {
        Some((c as u32 - '0' as u32) as u8)
    } else if 'a' <= c && c <= 'f' {
        Some((c as u32 - 'a' as u32 + 10) as u8)
    } else if 'A' <= c && c <= 'F' {
        Some((c as u32 - 'A' as u32 + 10) as u8)
    } else {
        None
    }
}

} // verus!
