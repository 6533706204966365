use vstd::prelude::*;

verus! {

/// The character of a decimal digit.
pub open spec fn digit_char(d: nat) -> char {
    if d == 0 {
        '0'
    } else if d == 1 {
        '1'
    } else if d == 2 {
        '2'
    } else if d == 3 {
        '3'
    } else if d == 4 {
        '4'
    } else if d == 5 {
        '5'
    } else if d == 6 {
        '6'
    } else if d == 7 {
        '7'
    } else if d == 8 {
        '8'
    } else {
        '9'
    }
}

/// The decimal digits of `n`, most significant first, without leading zeros
/// ("0" for zero).
pub open spec fn digits_of(n: nat) -> Seq<char>
    decreases n,
{
    if n < 10 {
        seq![digit_char(n)]
    } else {
        digits_of(n / 10).push(digit_char(n % 10))
    }
}

/// The decimal text of an integer, with a leading '-' when negative.
pub open spec fn decimal_text(x: int) -> Seq<char> {
    if x < 0 {
        seq!['-'] + digits_of((-x) as nat)
    } else {
        digits_of(x as nat)
    }
}

fn digit_str(d: u64) -> (r: &'static str)
    requires
        d < 10,
    ensures
        r@ == seq![digit_char(d as nat)],
{
    proof {
        reveal_strlit("0");
        reveal_strlit("1");
        reveal_strlit("2");
        reveal_strlit("3");
        reveal_strlit("4");
        reveal_strlit("5");
        reveal_strlit("6");
        reveal_strlit("7");
        reveal_strlit("8");
        reveal_strlit("9");
    }
    if d == 0 {
        "0"
    } else if d == 1 {
        "1"
    } else if d == 2 {
        "2"
    } else if d == 3 {
        "3"
    } else if d == 4 {
        "4"
    } else if d == 5 {
        "5"
    } else if d == 6 {
        "6"
    } else if d == 7 {
        "7"
    } else if d == 8 {
        "8"
    } else {
        "9"
    }
}

/// Appends the decimal text of `x` to `out`.
pub fn push_decimal(out: &mut String, x: i32)
    ensures
        final(out)@ == old(out)@ + decimal_text(x as int),
{
    let negative = x < 0;
    let wide: i64 = x as i64;
    let mut n: u64 = if negative {
        (-wide) as u64
    } else {
        wide as u64
    };
    let ghost n0: nat = n as nat;
    proof {
        assert(n0 == if x < 0 {
            -(x as int)
        } else {
            x as int
        });
    }
    // least significant digit first
    let mut low_first: Vec<u64> = Vec::new();
    loop
        invariant_except_break
            low_first@.len() > 0 ==> n > 0 && digits_of(n0) == digits_of(n as nat) + rev_digits(
                low_first@,
            ),
        invariant
            n0 < 0x1_0000_0000,
            n <= n0,
            forall|k: int| 0 <= k < low_first@.len() ==> #[trigger] low_first@[k] < 10,
            low_first@.len() == 0 ==> n == n0,
        ensures
            n == 0,
            low_first@.len() > 0,
            digits_of(n0) == rev_digits(low_first@),
            forall|k: int| 0 <= k < low_first@.len() ==> #[trigger] low_first@[k] < 10,
        decreases n,
    {
        let d = n % 10;
        let ghost before = low_first@;
        let ghost m = n as nat;
        low_first.push(d);
        n = n / 10;
        proof {
            assert(low_first@.drop_last() =~= before);
            assert(rev_digits(low_first@) == seq![digit_char(d as nat)] + rev_digits(before));
            let r0 = rev_digits(before);
            let r1 = rev_digits(low_first@);
            let prefix = if before.len() > 0 { digits_of(m) + r0 } else { digits_of(m) };
            assert(before.len() == 0 ==> r0 =~= Seq::<char>::empty());
            if before.len() == 0 {
                assert(m == n0);
                assert(digits_of(m) + r0 =~= digits_of(m));
            } else {
                assert(m > 0);
            }
            assert(digits_of(n0) == digits_of(m) + r0);
            if m >= 10 {
                assert(digits_of(m) == digits_of(m / 10).push(digit_char(m % 10)));
                assert(digits_of(n0) =~= digits_of(n as nat) + r1);
            } else {
                assert(digits_of(m) == seq![digit_char(m)]);
                assert(digits_of(n0) =~= r1);
            }
        }
        if n == 0 {
            break;
        }
    }
    if negative {
        out.append("-");
        proof {
            reveal_strlit("-");
        }
    }
    let ghost start = out@;
    let mut i: usize = low_first.len();
    while i > 0
        invariant
            i <= low_first@.len(),
            forall|k: int| 0 <= k < low_first@.len() ==> #[trigger] low_first@[k] < 10,
            out@ == start + rev_digits(low_first@.subrange(i as int, low_first@.len() as int)),
        decreases i,
    {
        i = i - 1;
        let ghost before = out@;
        out.append(digit_str(low_first[i]));
        proof {
            let tail = low_first@.subrange(i as int, low_first@.len() as int);
            let tail2 = low_first@.subrange(i + 1, low_first@.len() as int);
            assert(tail.drop_first() =~= tail2);
            lemma_rev_digits_first(tail);
            assert(out@ =~= start + rev_digits(tail));
        }
    }
    proof {
        assert(low_first@.subrange(0, low_first@.len() as int) =~= low_first@);
        if negative {
            assert(start =~= old(out)@ + seq!['-']);
        } else {
            assert(start == old(out)@);
        }
        assert(out@ == start + digits_of(n0));
        if negative {
            assert(n0 == (-(x as int)) as nat);
            assert(decimal_text(x as int) == seq!['-'] + digits_of(n0));
        } else {
            assert(n0 == x as nat);
            assert(decimal_text(x as int) == digits_of(n0));
        }
        assert(out@ =~= old(out)@ + decimal_text(x as int));
    }
}

/// The digits of a least-significant-first list, most significant first.
pub open spec fn rev_digits(s: Seq<u64>) -> Seq<char>
    decreases s.len(),
{
    if s.len() == 0 {
        Seq::empty()
    } else {
        seq![digit_char(s.last() as nat)] + rev_digits(s.drop_last())
    }
}

/// Reading a least-significant-first list from the back ends with its first digit.
pub proof fn lemma_rev_digits_first(s: Seq<u64>)
    requires
        s.len() > 0,
    ensures
        rev_digits(s) == rev_digits(s.drop_first()) + seq![digit_char(s[0] as nat)],
    decreases s.len(),
{
    if s.len() == 1 {
        assert(s.drop_first() =~= Seq::<u64>::empty());
        assert(s.drop_last() =~= Seq::<u64>::empty());
        assert(rev_digits(s.drop_last()) =~= Seq::<char>::empty());
        assert(rev_digits(s.drop_first()) =~= Seq::<char>::empty());
        assert(rev_digits(s) =~= seq![digit_char(s[0] as nat)]);
    } else {
        lemma_rev_digits_first(s.drop_last());
        assert(s.drop_last().drop_first() =~= s.drop_first().drop_last());
        assert(s.drop_first().last() == s.last());
        assert(rev_digits(s) =~= rev_digits(s.drop_first()) + seq![digit_char(s[0] as nat)]);
    }
}

} // verus!
