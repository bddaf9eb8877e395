use vstd::prelude::*;

verus! {

pub open spec fn dec_digit(d: int) -> char {
    if d == 0 {
        '0'
    } else if d == 1 {
        '1'
    } else if d == 2 {
        '2'
    } else if d == 3 {
        '3'
    } else if d == 4 {
        '4'
    } else if d == 5 {
        '5'
    } else if d == 6 {
        '6'
    } else if d == 7 {
        '7'
    } else if d == 8 {
        '8'
    } else {
        '9'
    }
}

/// The decimal notation of a non-negative integer, most significant digit
/// first, with no leading zeros (a lone zero for zero itself).
pub open spec fn dec_rep(n: int) -> Seq<char>
    decreases n,
{
    if n < 10 {
        seq![dec_digit(n)]
    } else {
        dec_rep(n / 10).push(dec_digit(n % 10))
    }
}

/// The characters of a digit sequence read back to front: digit values are
/// collected least significant first, the string wants them reversed.
pub open spec fn rev_digit_chars(ds: Seq<u64>) -> Seq<char>
    decreases ds.len(),
{
    if ds.len() == 0 {
        Seq::<char>::empty()
    } else {
        rev_digit_chars(ds.drop_first()).push(dec_digit(ds[0] as int))
    }
}

proof fn lemma_rev_digit_chars_push(ds: Seq<u64>, d: u64)
    ensures
        rev_digit_chars(ds.push(d)) == seq![dec_digit(d as int)] + rev_digit_chars(ds),
    decreases ds.len(),
{
    if ds.len() == 0 {
        assert(ds.push(d).drop_first() =~= Seq::<u64>::empty());
        assert(ds.push(d)[0] == d);
        assert(rev_digit_chars(Seq::<u64>::empty()) == Seq::<char>::empty());
        assert(rev_digit_chars(ds.push(d)) == rev_digit_chars(ds.push(d).drop_first()).push(
            dec_digit(ds.push(d)[0] as int),
        ));
        assert(rev_digit_chars(ds) == Seq::<char>::empty());
        assert(rev_digit_chars(ds.push(d)) =~= seq![dec_digit(d as int)] + rev_digit_chars(ds));
    } else {
        assert(ds.push(d).drop_first() =~= ds.drop_first().push(d));
        assert(ds.push(d)[0] == ds[0]);
        lemma_rev_digit_chars_push(ds.drop_first(), d);
        assert(rev_digit_chars(ds.push(d)) =~= seq![dec_digit(d as int)] + rev_digit_chars(ds));
    }
}

fn push_digit(out: &mut String, d: u64)
    requires
        d < 10,
    ensures
        final(out)@ == old(out)@.push(dec_digit(d as int)),
{
    proof {
        reveal_strlit("0");
        reveal_strlit("1");
        reveal_strlit("2");
        reveal_strlit("3");
        reveal_strlit("4");
        reveal_strlit("5");
        reveal_strlit("6");
        reveal_strlit("7");
        reveal_strlit("8");
        reveal_strlit("9");
    }
    let ghost pre = out@;
    if d == 0 {
        out.append("0");
    } else if d == 1 {
        out.append("1");
    } else if d == 2 {
        out.append("2");
    } else if d == 3 {
        out.append("3");
    } else if d == 4 {
        out.append("4");
    } else if d == 5 {
        out.append("5");
    } else if d == 6 {
        out.append("6");
    } else if d == 7 {
        out.append("7");
    } else if d == 8 {
        out.append("8");
    } else {
        out.append("9");
    }
    proof {
        assert(out@ =~= pre.push(dec_digit(d as int)));
    }
}

/// A non-negative integer written in decimal.
pub fn u64_to_dec(n: u64) -> (r: String)
    ensures
        r@ == dec_rep(n as int),
{
    let mut digits: Vec<u64> = Vec::new();
    let mut x: u64 = n;
    let d0: u64 = x % 10;
    digits.push(d0);
    x = x / 10;
    proof {
        assert(digits@ =~= Seq::<u64>::empty().push(d0));
        lemma_rev_digit_chars_push(Seq::<u64>::empty(), d0);
        if n >= 10 {
            assert(dec_rep(n as int) == dec_rep(n as int / 10).push(dec_digit(n as int % 10)));
            assert(dec_rep(n as int) =~= dec_rep(x as int) + rev_digit_chars(digits@));
        } else {
            assert(dec_rep(n as int) =~= rev_digit_chars(digits@));
        }
    }
    while x > 0
        invariant
            x > 0 ==> dec_rep(n as int) == dec_rep(x as int) + rev_digit_chars(digits@),
            x == 0 ==> dec_rep(n as int) == rev_digit_chars(digits@),
            forall|k: int| 0 <= k < digits@.len() ==> digits@[k] < 10,
        decreases x,
    {
        let d: u64 = x % 10;
        let ghost pre = digits@;
        digits.push(d);
        proof {
            lemma_rev_digit_chars_push(pre, d);
            if x >= 10 {
                assert(dec_rep(x as int) == dec_rep(x as int / 10).push(dec_digit(x as int % 10)));
                assert(dec_rep(x as int) + rev_digit_chars(pre) =~= dec_rep((x / 10) as int)
                    + rev_digit_chars(digits@));
            } else {
                assert(dec_rep(x as int) =~= seq![dec_digit(x as int)]);
                assert(dec_rep(x as int) + rev_digit_chars(pre) =~= rev_digit_chars(digits@));
            }
        }
        x = x / 10;
    }
    let mut out = String::new();
    let mut i: usize = digits.len();
    while i > 0
        invariant
            i <= digits@.len(),
            forall|k: int| 0 <= k < digits@.len() ==> digits@[k] < 10,
            out@ == rev_digit_chars(digits@.subrange(i as int, digits@.len() as int)),
        decreases i,
    {
        i = i - 1;
        push_digit(&mut out, digits[i]);
        proof {
            let sub = digits@.subrange(i as int, digits@.len() as int);
            assert(sub.drop_first() =~= digits@.subrange(i + 1, digits@.len() as int));
            assert(sub[0] == digits@[i as int]);
            assert(out@ == rev_digit_chars(sub));
        }
    }
    proof {
        assert(digits@.subrange(0, digits@.len() as int) =~= digits@);
    }
    out
}

/// A signed integer written in decimal, with a leading minus sign where it
/// is negative.
pub open spec fn dec_rep_i64(n: int) -> Seq<char> {
    if n >= 0 {
        dec_rep(n)
    } else {
        seq!['-'] + dec_rep(-n)
    }
}

pub fn i64_to_dec(n: i64) -> (r: String)
    ensures
        r@ == dec_rep_i64(n as int),
{
    if n >= 0 {
        u64_to_dec(n as u64)
    } else {
        let mag: u64 = if n == i64::MIN {
            9223372036854775808u64
        } else {
            (-n) as u64
        };
        proof {
            assert(mag as int == -(n as int));
        }
        let digits_str = u64_to_dec(mag);
        let mut out = String::from_str("-");
        out.append(digits_str.as_str());
        proof {
            reveal_strlit("-");
            assert(out@ =~= dec_rep_i64(n as int));
        }
        out
    }
}

} // verus!
