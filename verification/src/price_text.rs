use vstd::prelude::*;

verus! {

/// Fixed-point price scale: prices are held in units of 1e-8.
pub const PRICE_SCALE_E8: u64 = 100000000;

pub open spec fn is_digit(b: u8) -> bool {
    48 <= b <= 57
}

pub open spec fn digit_val(b: u8) -> int {
    b - 48
}

pub open spec fn all_digits(s: Seq<u8>) -> bool {
    forall|i: int| 0 <= i < s.len() ==> is_digit(#[trigger] s[i])
}

/// The value of a string of decimal digits, most significant first.
pub open spec fn digits_val(s: Seq<u8>) -> int
    decreases s.len(),
{
    if s.len() == 0 {
        0
    } else {
        digits_val(s.drop_last()) * 10 + digit_val(s.last())
    }
}

/// Index of the first `.` byte, if any.
pub open spec fn first_dot(s: Seq<u8>) -> Option<int>
    decreases s.len(),
{
    if s.len() == 0 {
        None
    } else if s[0] == 46 {
        Some(0int)
    } else {
        match first_dot(s.drop_first()) {
            None => None,
            Some(i) => Some(i + 1),
        }
    }
}

pub open spec fn int_part(s: Seq<u8>) -> Seq<u8> {
    match first_dot(s) {
        None => s,
        Some(k) => s.take(k),
    }
}

pub open spec fn frac_part(s: Seq<u8>) -> Seq<u8> {
    match first_dot(s) {
        None => Seq::empty(),
        Some(k) => s.skip(k + 1),
    }
}

/// The fractional digits that contribute to the fixed-point value: the first
/// eight; further digits are below the 1e-8 resolution and are dropped.
pub open spec fn frac_kept(s: Seq<u8>) -> Seq<u8> {
    if frac_part(s).len() <= 8 {
        frac_part(s)
    } else {
        frac_part(s).take(8)
    }
}

pub open spec fn pow10(n: nat) -> int
    decreases n,
{
    if n == 0 {
        1
    } else {
        10 * pow10((n - 1) as nat)
    }
}

/// The accepted grammar: one to eleven integer digits, then optionally a dot
/// and any run of fractional digits. Eleven integer digits keep every
/// representable value within `u64` at the 1e-8 scale.
pub open spec fn well_formed_price(s: Seq<u8>) -> bool {
    &&& 1 <= int_part(s).len() <= 11
    &&& all_digits(int_part(s))
    &&& all_digits(frac_part(s))
}

pub open spec fn price_value_e8(s: Seq<u8>) -> int {
    digits_val(int_part(s)) * pow10(8) + digits_val(frac_kept(s)) * pow10(
        (8 - frac_kept(s).len()) as nat,
    )
}

/// What a price text denotes at the 1e-8 scale, or `None` if it is not a
/// well-formed decimal.
pub open spec fn price_e8_of(s: Seq<u8>) -> Option<int> {
    if well_formed_price(s) {
        Some(price_value_e8(s))
    } else {
        None
    }
}

proof fn lemma_digits_val_bounds(s: Seq<u8>)
    requires
        all_digits(s),
    ensures
        0 <= digits_val(s) < pow10(s.len() as nat),
    decreases s.len(),
{
    if s.len() == 0 {
    } else {
        let rest = s.drop_last();
        assert(all_digits(rest));
        lemma_digits_val_bounds(rest);
        assert(pow10(s.len() as nat) == 10 * pow10(rest.len() as nat));
    }
}

proof fn lemma_pow10_add(a: nat, b: nat)
    ensures
        pow10(a + b) == pow10(a) * pow10(b),
    decreases a,
{
    if a == 0 {
    } else {
        lemma_pow10_add((a - 1) as nat, b);
        assert(pow10(a + b) == 10 * pow10((a + b - 1) as nat));
        assert(pow10(a) * pow10(b) == (10 * pow10((a - 1) as nat)) * pow10(b));
        assert((10 * pow10((a - 1) as nat)) * pow10(b) == 10 * (pow10((a - 1) as nat) * pow10(b)))
            by (nonlinear_arith);
    }
}

proof fn lemma_pow10_pos(n: nat)
    ensures
        pow10(n) >= 1,
    decreases n,
{
    if n == 0 {
    } else {
        lemma_pow10_pos((n - 1) as nat);
    }
}

proof fn lemma_first_dot_push(s: Seq<u8>, x: u8)
    ensures
        first_dot(s.push(x)) == (match first_dot(s) {
            Some(k) => Some(k),
            None => if x == 46 {
                Some(s.len() as int)
            } else {
                None
            },
        }),
    decreases s.len(),
{
    let t = s.push(x);
    if s.len() == 0 {
        assert(t.drop_first() =~= Seq::<u8>::empty());
    } else {
        if s[0] == 46 {
        } else {
            assert(t.drop_first() =~= s.drop_first().push(x));
            lemma_first_dot_push(s.drop_first(), x);
        }
    }
}

/// Parses a decimal price text into fixed-point units of 1e-8, exactly as
/// `price_e8_of` describes; malformed text yields `None`.
pub fn parse_price_e8(s: &[u8]) -> (r: Option<u64>)
    ensures
        r is Some <==> price_e8_of(s@) is Some,
        r matches Some(v) ==> price_e8_of(s@) == Some(v as int),
{
    let n = s.len();
    let mut dot: Option<usize> = None;
    let mut i: usize = 0;
    while i < n
        invariant
            n == s@.len(),
            0 <= i <= n,
            match dot {
                Some(d) => first_dot(s@.take(i as int)) == Some(d as int) && d < i,
                None => first_dot(s@.take(i as int)) is None,
            },
        decreases n - i,
    {
        proof {
            assert(s@.take(i as int + 1) =~= s@.take(i as int).push(s@[i as int]));
            lemma_first_dot_push(s@.take(i as int), s@[i as int]);
        }
        if dot.is_none() && s[i] == 46 {
            dot = Some(i);
        }
        i += 1;
    }
    proof {
        assert(s@.take(n as int) =~= s@);
    }
    let ip_len: usize = match dot {
        Some(d) => d,
        None => n,
    };
    let ghost ip = int_part(s@);
    proof {
        if dot is Some {
            assert(ip =~= s@.take(ip_len as int));
        } else {
            assert(ip =~= s@);
            assert(ip =~= s@.take(ip_len as int));
        }
    }
    if ip_len == 0 || ip_len > 11 {
        return None;
    }
    let mut acc: u64 = 0;
    let mut j: usize = 0;
    while j < ip_len
        invariant
            n == s@.len(),
            ip_len <= 11,
            ip_len <= n,
            ip == int_part(s@),
            ip =~= s@.take(ip_len as int),
            ip.len() == ip_len,
            0 <= j <= ip_len,
            all_digits(ip.take(j as int)),
            acc == digits_val(ip.take(j as int)),
            acc < pow10(j as nat),
        decreases ip_len - j,
    {
        let b = s[j];
        if b < 48 || b > 57 {
            proof {
                assert(ip[j as int] == b);
                assert(!is_digit(ip[j as int]));
                assert(!all_digits(ip));
            }
            return None;
        }
        proof {
            assert(ip.take(j as int + 1) =~= ip.take(j as int).push(ip[j as int]));
            assert(ip.take(j as int + 1).drop_last() =~= ip.take(j as int));
            assert(digits_val(ip.take(j as int + 1)) == digits_val(ip.take(j as int)) * 10
                + digit_val(ip[j as int]));
            assert(pow10((j + 1) as nat) == 10 * pow10(j as nat));
            assert(pow10(j as nat) <= pow10(11)) by {
                lemma_pow10_add(j as nat, (11 - j) as nat);
                lemma_pow10_pos((11 - j) as nat);
                assert(pow10(11) == pow10(j as nat) * pow10((11 - j) as nat));
                assert(pow10(j as nat) * 1 <= pow10(j as nat) * pow10((11 - j) as nat))
                    by (nonlinear_arith)
                    requires pow10(j as nat) >= 0, pow10((11 - j) as nat) >= 1;
                lemma_pow10_pos(j as nat);
            }
            assert(pow10(11) == 100000000000) by {
                reveal_with_fuel(pow10, 12);
            }
        }
        acc = acc * 10 + ((b - 48) as u64);
        j += 1;
    }
    proof {
        assert(ip.take(ip_len as int) =~= ip);
        assert(all_digits(ip));
        assert(acc == digits_val(ip));
        assert(pow10(11) == 100000000000) by {
            reveal_with_fuel(pow10, 12);
        }
        assert(pow10(8) == 100000000) by {
            reveal_with_fuel(pow10, 9);
        }
        lemma_digits_val_bounds(ip);
        lemma_pow10_increases(ip_len as nat, 11);
        assert(acc < 100000000000);
    }
    let scaled_int: u64 = acc * PRICE_SCALE_E8;
    match dot {
        None => {
            proof {
                assert(frac_part(s@) =~= Seq::<u8>::empty());
                assert(all_digits(frac_part(s@)));
                assert(well_formed_price(s@));
                assert(frac_kept(s@) =~= Seq::<u8>::empty());
                assert(digits_val(frac_kept(s@)) == 0);
                assert(price_value_e8(s@) == digits_val(ip) * pow10(8));
            }
            Some(scaled_int)
        },
        Some(d) => {
            let fstart = d + 1;
            let ghost fr = frac_part(s@);
            proof {
                assert(fr =~= s@.skip(fstart as int));
            }
            let mut fv: u64 = 0;
            let mut k: usize = fstart;
            while k < n
                invariant
                    n == s@.len(),
                    fstart <= k <= n,
                    fr == frac_part(s@),
                    fr =~= s@.skip(fstart as int),
                    fr.len() == n - fstart,
                    all_digits(fr.take(k - fstart as int)),
                    fv == digits_val(fr.take(if k - fstart <= 8 { (k - fstart) as int } else { 8int })),
                    fv < pow10(if k - fstart <= 8 { (k - fstart) as nat } else { 8nat }),
                decreases n - k,
            {
                let b = s[k];
                if b < 48 || b > 57 {
                    proof {
                        assert(fr[(k - fstart) as int] == b);
                        assert(!all_digits(fr));
                    }
                    return None;
                }
                proof {
                    let pos = (k - fstart) as int;
                    assert(fr.take(pos + 1) =~= fr.take(pos).push(fr[pos]));
                    assert(fr.take(pos + 1).drop_last() =~= fr.take(pos));
                    assert(digits_val(fr.take(pos + 1)) == digits_val(fr.take(pos)) * 10
                        + digit_val(fr[pos]));
                    assert(pow10((pos + 1) as nat) == 10 * pow10(pos as nat));
                    if pos < 8 {
                        lemma_pow10_increases(pos as nat, 7);
                    }
                    assert(pow10(7) == 10000000) by {
                        reveal_with_fuel(pow10, 8);
                    }
                    assert(pow10(8) == 100000000) by {
                        reveal_with_fuel(pow10, 9);
                    }
                }
                if k - fstart < 8 {
                    fv = fv * 10 + ((b - 48) as u64);
                }
                k += 1;
            }
            proof {
                assert(fr.take((n - fstart) as int) =~= fr);
                assert(all_digits(fr));
                assert(well_formed_price(s@));
            }
            let flen = n - fstart;
            let kept_len: usize = if flen > 8 { 8 } else { flen };
            proof {
                if flen <= 8 {
                    assert(frac_kept(s@) =~= fr);
                    assert(frac_kept(s@) =~= fr.take(kept_len as int));
                } else {
                    assert(frac_kept(s@) =~= fr.take(8));
                }
                assert(fv == digits_val(frac_kept(s@)));
                assert(frac_kept(s@).len() == kept_len);
            }
            let mut scale: u64 = 1;
            let mut m: usize = kept_len;
            while m < 8
                invariant
                    kept_len <= m <= 8,
                    scale == pow10((m - kept_len) as nat),
                    scale <= 100000000,
                decreases 8 - m,
            {
                proof {
                    assert(pow10((m + 1 - kept_len) as nat) == 10 * pow10((m - kept_len) as nat));
                    assert(pow10((m - kept_len) as nat) <= pow10(7)) by {
                        lemma_pow10_increases((m - kept_len) as nat, 7);
                    }
                    assert(pow10(7) == 10000000) by {
                        reveal_with_fuel(pow10, 8);
                    }
                }
                scale = scale * 10;
                m += 1;
            }
            proof {
                assert(scale == pow10((8 - kept_len) as nat));
                assert(fv * scale < pow10(8)) by {
                    lemma_digits_val_bounds(frac_kept(s@));
                    lemma_pow10_add(kept_len as nat, (8 - kept_len) as nat);
                    lemma_pow10_pos((8 - kept_len) as nat);
                    assert(fv * pow10((8 - kept_len) as nat) < pow10(kept_len as nat) * pow10(
                        (8 - kept_len) as nat,
                    ))
                        by (nonlinear_arith)
                        requires
                            fv < pow10(kept_len as nat),
                            pow10((8 - kept_len) as nat) >= 1,
                            fv >= 0,
                    ;
                }
                assert(pow10(8) == 100000000) by {
                    reveal_with_fuel(pow10, 9);
                }
                assert(price_value_e8(s@) == digits_val(ip) * pow10(8) + digits_val(frac_kept(s@))
                    * pow10((8 - kept_len) as nat));
            }
            let total: u64 = scaled_int + fv * scale;
            Some(total)
        },
    }
}

proof fn lemma_pow10_increases(a: nat, b: nat)
    requires
        a <= b,
    ensures
        pow10(a) <= pow10(b),
    decreases b,
{
    if a == b {
    } else {
        lemma_pow10_increases(a, (b - 1) as nat);
        lemma_pow10_pos((b - 1) as nat);
        assert(pow10(b) == 10 * pow10((b - 1) as nat));
    }
}

} // verus!
