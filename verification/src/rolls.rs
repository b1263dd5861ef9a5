//! Dice rolls.
use vstd::prelude::*;

verus! {

broadcast use vstd::string::group_string_axioms;

/// An ASCII digit.
pub open spec fn is_digit(c: char) -> bool {
    '0' <= c && c <= '9'
}

/// The value of an ASCII digit.
pub open spec fn digit_value(c: char) -> nat {
    ((c as int) - ('0' as int)) as nat
}

/// A small dice expression, "<count>d<sides>": one digit of count and one or
/// two digits of sides, neither zero; its count and sides.
pub open spec fn small_dice(s: Seq<char>) -> Option<(nat, nat)> {
    if s.len() == 3 && is_digit(s[0]) && s[0] != '0' && s[1] == 'd' && is_digit(s[2]) && s[2]
        != '0' {
        Some((digit_value(s[0]), digit_value(s[2])))
    } else if s.len() == 4 && is_digit(s[0]) && s[0] != '0' && s[1] == 'd' && is_digit(s[2])
        && s[2] != '0' && is_digit(s[3]) {
        Some((digit_value(s[0]), 10 * digit_value(s[2]) + digit_value(s[3])))
    } else {
        None
    }
}

/// `caith::Roller::new` and `caith::Roller::roll` on a small dice expression,
/// and the total of the single roll. `Roller::new` always succeeds, and the
/// crate's grammar reads "<count>d<sides>" as one plain roll, which its
/// evaluator rolls without error when count and sides are within its limits
/// (5000 each); so a total comes back. Each die shows from 1 to its sides, so
/// the total lies between the count and the count times the sides; which
/// total is left to chance. Larger expressions are left out, because the
/// crate's parser panics on some of them.
#[verifier::external_body]
fn roll_small_dice(expr: &str) -> (r: Option<i64>)
    requires
        small_dice(expr@) is Some,
    ensures
        r is Some,
        r matches Some(t) ==> (small_dice(expr@) matches Some((n, m)) && n <= t <= n * m),
{
    match caith::Roller::new(expr) {
        Ok(roller) => match roller.roll() {
            Ok(result) => match result.as_single() {
                Some(single) => Some(single.get_total()),
                None => None,
            },
            Err(_) => None,
        },
        Err(_) => None,
    }
}

/// The outcome of an attempt to hit.
#[derive(Clone, Copy, Debug, PartialEq, Eq, Structural)]
pub enum HitResponse {
    Missed,
    Hit,
}

/// Decides a hit from a quality roll and the defender's dodge roll: the
/// attack misses when its quality falls short of the dodge.
pub fn hit_response(quality: i64, dodge: i64) -> (r: HitResponse)
    ensures
        r == (if quality < dodge {
            HitResponse::Missed
        } else {
            HitResponse::Hit
        }),
{
    if quality < dodge {
        HitResponse::Missed
    } else {
        HitResponse::Hit
    }
}

/// Rolls the dice of a hit: two ten-sided dice for its quality and one for
/// the defender's dodge. Returns the quality total, the dodge total and the
/// outcome that they decide; which totals come up is left to the dice.
pub fn roll_hit_totals() -> (r: (i64, i64, HitResponse))
    ensures
        2 <= r.0 <= 20,
        1 <= r.1 <= 10,
        r.2 == hit_response_of(r.0, r.1),
{
    proof {
        reveal_strlit("2d10");
        reveal_strlit("1d10");
        assert("2d10"@[0] == '2' && "2d10"@[2] == '1' && "2d10"@[3] == '0');
        assert(small_dice("2d10"@) == Some((2nat, 10nat)));
        assert(small_dice("1d10"@) == Some((1nat, 10nat)));
    }
    let quality = roll_small_dice("2d10");
    let dodge = roll_small_dice("1d10");
    let q: i64 = quality.unwrap();
    let d: i64 = dodge.unwrap();
    proof {
        let (n, m) = small_dice("2d10"@)->0;
        assert(n * m == 20) by (nonlinear_arith)
            requires
                n == 2 && m == 10,
        ;
        let (n1, m1) = small_dice("1d10"@)->0;
        assert(n1 * m1 == 10) by (nonlinear_arith)
            requires
                n1 == 1 && m1 == 10,
        ;
    }
    (q, d, hit_response(q, d))
}

/// Rolls for a hit: two ten-sided dice for its quality against one for the
/// dodge (see `roll_hit_totals`, which also gives the totals).
pub fn roll_hit() -> (r: HitResponse)
    ensures
        exists|q: i64, d: i64| 2 <= q <= 20 && 1 <= d <= 10 && r == hit_response_of(q, d),
{
    roll_hit_totals().2
}

/// The outcome of a hit for a quality roll and a dodge roll.
pub open spec fn hit_response_of(quality: i64, dodge: i64) -> HitResponse {
    if quality < dodge {
        HitResponse::Missed
    } else {
        HitResponse::Hit
    }
}

} // verus!
