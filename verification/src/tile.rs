//! Tile identifiers: `tile-<task id>-<suffix>`, where the suffix is a clock
//! reading reduced modulo `TILE_SUFFIX_MODULUS`, written in decimal.

use vstd::prelude::*;
use crate::clock::nanos_now;

verus! {

/// Tile suffixes are clock readings taken modulo this.
pub const TILE_SUFFIX_MODULUS: u64 = 10000;

/// The decimal digit character for `d` (for `d < 10`).
pub open spec fn digit_char(d: nat) -> char {
    if d == 0 { '0' }
    else if d == 1 { '1' }
    else if d == 2 { '2' }
    else if d == 3 { '3' }
    else if d == 4 { '4' }
    else if d == 5 { '5' }
    else if d == 6 { '6' }
    else if d == 7 { '7' }
    else if d == 8 { '8' }
    else { '9' }
}

/// The decimal writing of `n`, most significant digit first, with no leading zeros.
pub open spec fn decimal(n: nat) -> Seq<char>
    decreases n,
{
    if n < 10 {
        seq![digit_char(n)]
    } else {
        decimal(n / 10).push(digit_char(n % 10))
    }
}

/// `tile-`
pub open spec fn tile_prefix() -> Seq<char> {
    seq!['t', 'i', 'l', 'e', '-']
}

/// The tile identifier made for task `task_id` at clock reading `nanos`:
/// `tile-<task_id>-<nanos mod TILE_SUFFIX_MODULUS>`.
pub open spec fn tile_id_text(task_id: Seq<char>, nanos: u64) -> Seq<char> {
    tile_prefix() + task_id + seq!['-'] + decimal((nanos % TILE_SUFFIX_MODULUS) as nat)
}

/// The one-character string for the decimal digit `d`.
fn digit_str(d: u64) -> (r: &'static str)
    requires
        d < 10,
    ensures
        r@ == seq![digit_char(d as nat)],
{
    if d == 0 {
        proof { reveal_strlit("0"); }
        "0"
    } else if d == 1 {
        proof { reveal_strlit("1"); }
        "1"
    } else if d == 2 {
        proof { reveal_strlit("2"); }
        "2"
    } else if d == 3 {
        proof { reveal_strlit("3"); }
        "3"
    } else if d == 4 {
        proof { reveal_strlit("4"); }
        "4"
    } else if d == 5 {
        proof { reveal_strlit("5"); }
        "5"
    } else if d == 6 {
        proof { reveal_strlit("6"); }
        "6"
    } else if d == 7 {
        proof { reveal_strlit("7"); }
        "7"
    } else if d == 8 {
        proof { reveal_strlit("8"); }
        "8"
    } else {
        proof { reveal_strlit("9"); }
        "9"
    }
}

/// Appends the decimal writing of `n` to `s`.
pub fn push_decimal(s: &mut String, n: u64)
    ensures
        final(s)@ == old(s)@ + decimal(n as nat),
    decreases n,
{
    if n >= 10 {
        push_decimal(s, n / 10);
    }
    let d: &str = digit_str(n % 10);
    s.append(d);
    proof {
        if n >= 10 {
            assert(decimal(n as nat) == decimal((n / 10) as nat).push(digit_char((n % 10) as nat)));
        }
    }
}

/// The tile identifier for task `task_id` at clock reading `nanos`.
pub fn tile_id_at(task_id: &String, nanos: u64) -> (r: String)
    ensures
        r@ == tile_id_text(task_id@, nanos),
{
    let mut s: String = String::new();
    s.append("tile-");
    proof { reveal_strlit("tile-"); }
    s.append(task_id.as_str());
    s.append("-");
    proof { reveal_strlit("-"); }
    push_decimal(&mut s, nanos % TILE_SUFFIX_MODULUS);
    s
}

/// A fresh tile identifier for task `task_id`, suffixed by the current clock reading.
pub fn fresh_tile_id(task_id: &String) -> (r: String)
    ensures
        exists|nanos: u64| r@ == tile_id_text(task_id@, nanos),
{
    let nanos: u64 = nanos_now();
    tile_id_at(task_id, nanos)
}

/// A number below 10^k is written with at most k digits, and every number with at
/// least one.
pub proof fn lemma_decimal_len(n: nat)
    ensures
        1 <= decimal(n).len(),
        n < 10 ==> decimal(n).len() == 1,
        n < 100 ==> decimal(n).len() <= 2,
        n < 1000 ==> decimal(n).len() <= 3,
        n < 10000 ==> decimal(n).len() <= 4,
    decreases n,
{
    if n >= 10 {
        lemma_decimal_len(n / 10);
    }
}

/// Every tile suffix is one to four decimal digits, so a tile identifier is
/// `tile-`, the task id, `-`, and at most four more characters.
pub proof fn lemma_tile_id_shape(task_id: Seq<char>, nanos: u64)
    ensures
        tile_id_text(task_id, nanos).subrange(0, 5) == tile_prefix(),
        tile_id_text(task_id, nanos).subrange(5, 5 + task_id.len() as int) == task_id,
        tile_id_text(task_id, nanos)[5 + task_id.len() as int] == '-',
        task_id.len() + 7 <= tile_id_text(task_id, nanos).len() <= task_id.len() + 10,
{
    lemma_decimal_len((nanos % TILE_SUFFIX_MODULUS) as nat);
    let t = tile_id_text(task_id, nanos);
    assert(t.subrange(0, 5) =~= tile_prefix());
    assert(t.subrange(5, 5 + task_id.len() as int) =~= task_id);
}

} // verus!
