//! The score line shown by the UI: the ASCII bytes of `Score: ` followed
//! by the decimal digits of the current score.

use vstd::prelude::*;

use vstd::arithmetic::div_mod::lemma_div_decreases;

verus! {

/// The decimal digits of `n`, most significant first, as ASCII bytes.
pub open spec fn dec_digits(n: nat) -> Seq<u8>
    decreases n,
{
    if n < 10 {
        seq![(48 + n) as u8]
    } else {
        dec_digits(n / 10).push((48 + n % 10) as u8)
    }
}

/// The ASCII bytes of `Score: `.
pub open spec fn score_prefix() -> Seq<u8> {
    seq![83u8, 99u8, 111u8, 114u8, 101u8, 58u8, 32u8]
}

/// The full score line for a score of `n`.
pub open spec fn score_line_spec(n: nat) -> Seq<u8> {
    score_prefix() + dec_digits(n)
}

/// Appends the decimal digits of `n`.
fn push_digits(v: &mut Vec<u8>, n: u32)
    ensures
        final(v)@ == old(v)@ + dec_digits(n as nat),
    decreases n,
{
    if n < 10 {
        v.push(48 + n as u8);
        assert(v@ =~= old(v)@ + dec_digits(n as nat));
    } else {
        proof {
            lemma_div_decreases(n as int, 10);
        }
        push_digits(v, n / 10);
        v.push(48 + (n % 10) as u8);
        assert(v@ =~= old(v)@ + dec_digits(n as nat));
    }
}

/// Renders the score line: `Score: ` and the decimal score.
pub fn score_line(n: u32) -> (r: Vec<u8>)
    ensures
        r@ == score_line_spec(n as nat),
{
    let mut v: Vec<u8> = Vec::new();
    v.push(83);
    v.push(99);
    v.push(111);
    v.push(114);
    v.push(101);
    v.push(58);
    v.push(32);
    assert(v@ =~= score_prefix());
    push_digits(&mut v, n);
    assert(v@ =~= score_line_spec(n as nat));
    v
}

} // verus!
