//! Decimal text of numbers, for messages.
use vstd::prelude::*;

use crate::codec::hex_table;

verus! {

/// The decimal digits of `n`, most significant first, without leading zeros.
pub open spec fn decimal_of(n: nat) -> Seq<char>
    decreases n,
{
    if n < 10 {
        seq![hex_table()[n as int]]
    } else {
        decimal_of(n / 10).push(hex_table()[(n % 10) as int])
    }
}

/// The decimal text of `n`.
pub fn decimal_text(n: u64) -> (r: String)
    ensures
        r@ == decimal_of(n as nat),
{
    let table = "0123456789";
    proof {
        reveal_strlit("0123456789");
    }
    assert(table.is_ascii());
    // digit values, least significant first
    let mut vals: Vec<u8> = Vec::new();
    let ghost mut suffix: Seq<char> = Seq::empty();
    let mut m: u64 = n;
    let mut done = false;
    while !done
        invariant
            vals@.len() == suffix.len(),
            !done ==> decimal_of(n as nat) == decimal_of(m as nat) + suffix,
            done ==> decimal_of(n as nat) == suffix,
            forall|j: int| 0 <= j < vals@.len() ==> #[trigger] vals@[j] < 10,
            forall|j: int|
                0 <= j < suffix.len() ==> #[trigger] suffix[j] == hex_table()[vals@[vals@.len()
                    - 1 - j] as int],
        decreases m + if done {
            0int
        } else {
            1int
        },
    {
        let d = (m % 10) as u8;
        let ghost old_suffix = suffix;
        proof {
            suffix = seq![hex_table()[d as int]] + suffix;
        }
        vals.push(d);
        if m < 10 {
            assert(decimal_of(m as nat) == seq![hex_table()[d as int]]);
            assert(seq![hex_table()[d as int]] + old_suffix =~= suffix);
            done = true;
        } else {
            assert(decimal_of(m as nat) == decimal_of((m / 10) as nat).push(
                hex_table()[d as int],
            ));
            assert(decimal_of((m / 10) as nat).push(hex_table()[d as int]) + old_suffix
                =~= decimal_of((m / 10) as nat) + suffix);
            m = m / 10;
        }
        assert forall|j: int| 0 <= j < suffix.len() implies #[trigger] suffix[j]
            == hex_table()[vals@[vals@.len() - 1 - j] as int] by {
            if j > 0 {
                assert(suffix[j] == old_suffix[j - 1]);
            }
        }
    }
    let count = vals.len();
    let mut r = String::new();
    let mut i: usize = 0;
    while i < count
        invariant
            i <= count,
            count == vals@.len(),
            count == suffix.len(),
            table@ == hex_table().take(10),
            table.is_ascii(),
            forall|j: int| 0 <= j < count ==> #[trigger] vals@[j] < 10,
            forall|j: int|
                0 <= j < count ==> #[trigger] suffix[j] == hex_table()[vals@[count - 1
                    - j] as int],
            r@ == suffix.take(i as int),
        decreases count - i,
    {
        let v = vals[count - 1 - i] as usize;
        let digit = table.substring_ascii(v, v + 1);
        r.append(digit);
        i = i + 1;
        assert(r@ =~= suffix.take(i as int));
    }
    assert(suffix.take(count as int) =~= suffix);
    r
}

} // verus!
