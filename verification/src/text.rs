//! Small verified text-building utilities shared by the renderers:
//! decimal formatting of integers and separator joins.

use vstd::prelude::*;

verus! {

pub open spec fn spec_digit_char(d: nat) -> char {
    if d == 0 {
        '0'
    } else if d == 1 {
        '1'
    } else if d == 2 {
        '2'
    } else if d == 3 {
        '3'
    } else if d == 4 {
        '4'
    } else if d == 5 {
        '5'
    } else if d == 6 {
        '6'
    } else if d == 7 {
        '7'
    } else if d == 8 {
        '8'
    } else {
        '9'
    }
}

/// The decimal digits of `n`, most significant first.
pub open spec fn spec_dec_nat(n: nat) -> Seq<char>
    decreases n,
{
    if n < 10 {
        seq![spec_digit_char(n)]
    } else {
        spec_dec_nat(n / 10).push(spec_digit_char(n % 10))
    }
}

/// Decimal text of a signed value: a minus sign followed by the digits of
/// the magnitude, or just the digits.
pub open spec fn spec_dec_int(v: int) -> Seq<char> {
    if v < 0 {
        seq!['-'] + spec_dec_nat((-v) as nat)
    } else {
        spec_dec_nat(v as nat)
    }
}

fn push_digit(s: &mut String, d: u64)
    requires
        d < 10,
    ensures
        final(s)@ == old(s)@ + seq![spec_digit_char(d as nat)],
{
    if d == 0 {
        proof {
            reveal_strlit("0");
            assert(seq![spec_digit_char(d as nat)] =~= "0"@);
        }
        s.append("0");
    } else if d == 1 {
        proof {
            reveal_strlit("1");
            assert(seq![spec_digit_char(d as nat)] =~= "1"@);
        }
        s.append("1");
    } else if d == 2 {
        proof {
            reveal_strlit("2");
            assert(seq![spec_digit_char(d as nat)] =~= "2"@);
        }
        s.append("2");
    } else if d == 3 {
        proof {
            reveal_strlit("3");
            assert(seq![spec_digit_char(d as nat)] =~= "3"@);
        }
        s.append("3");
    } else if d == 4 {
        proof {
            reveal_strlit("4");
            assert(seq![spec_digit_char(d as nat)] =~= "4"@);
        }
        s.append("4");
    } else if d == 5 {
        proof {
            reveal_strlit("5");
            assert(seq![spec_digit_char(d as nat)] =~= "5"@);
        }
        s.append("5");
    } else if d == 6 {
        proof {
            reveal_strlit("6");
            assert(seq![spec_digit_char(d as nat)] =~= "6"@);
        }
        s.append("6");
    } else if d == 7 {
        proof {
            reveal_strlit("7");
            assert(seq![spec_digit_char(d as nat)] =~= "7"@);
        }
        s.append("7");
    } else if d == 8 {
        proof {
            reveal_strlit("8");
            assert(seq![spec_digit_char(d as nat)] =~= "8"@);
        }
        s.append("8");
    } else {
        proof {
            reveal_strlit("9");
            assert(seq![spec_digit_char(d as nat)] =~= "9"@);
        }
        s.append("9");
    }
}

/// Append the decimal digits of `n` to `s`.
pub fn push_dec_u64(s: &mut String, n: u64)
    ensures
        final(s)@ == old(s)@ + spec_dec_nat(n as nat),
    decreases n,
{
    if n >= 10 {
        push_dec_u64(s, n / 10);
        push_digit(s, n % 10);
        proof {
            assert(spec_dec_nat(n as nat) == spec_dec_nat(n as nat / 10).push(
                spec_digit_char(n as nat % 10),
            ));
            assert(spec_dec_nat(n as nat / 10).push(spec_digit_char(n as nat % 10)) =~= spec_dec_nat(
                n as nat / 10,
            ) + seq![spec_digit_char(n as nat % 10)]);
            assert(old(s)@ + spec_dec_nat(n as nat / 10) + seq![spec_digit_char(n as nat % 10)]
                =~= old(s)@ + spec_dec_nat(n as nat));
        }
    } else {
        push_digit(s, n);
    }
}

/// Append the decimal text of the signed value `v` to `s`.
pub fn push_dec_i64(s: &mut String, v: i64)
    ensures
        final(s)@ == old(s)@ + spec_dec_int(v as int),
{
    if v < 0 {
        proof {
            reveal_strlit("-");
            assert("-"@ =~= seq!['-']);
        }
        s.append("-");
        let mag: u64 = ((-(v + 1)) as u64) + 1;
        push_dec_u64(s, mag);
        proof {
            assert(mag as nat == (-(v as int)) as nat);
            assert(old(s)@ + "-"@ + spec_dec_nat(mag as nat) =~= old(s)@ + spec_dec_int(v as int));
        }
    } else {
        push_dec_u64(s, v as u64);
    }
}

/// The decimal text of a signed value as a fresh string.
pub fn dec_i64(v: i64) -> (r: String)
    ensures
        r@ == spec_dec_int(v as int),
{
    let mut s = String::new();
    push_dec_i64(&mut s, v);
    proof {
        assert(Seq::<char>::empty() + spec_dec_int(v as int) =~= spec_dec_int(v as int));
    }
    s
}

/// `parts` joined with `sep` between consecutive elements.
pub open spec fn spec_join(parts: Seq<Seq<char>>, sep: Seq<char>) -> Seq<char>
    decreases parts.len(),
{
    if parts.len() == 0 {
        Seq::empty()
    } else if parts.len() == 1 {
        parts[0]
    } else {
        parts[0] + sep + spec_join(parts.drop_first(), sep)
    }
}

pub proof fn lemma_join_push(parts: Seq<Seq<char>>, sep: Seq<char>, x: Seq<char>)
    ensures
        parts.len() == 0 ==> spec_join(parts.push(x), sep) == x,
        parts.len() >= 1 ==> spec_join(parts.push(x), sep) == spec_join(parts, sep) + sep + x,
    decreases parts.len(),
{
    if parts.len() == 0 {
        assert(spec_join(parts.push(x), sep) == parts.push(x)[0]);
        assert(parts.push(x)[0] == x);
    } else if parts.len() == 1 {
        assert(parts.push(x).len() == 2);
        assert(parts.push(x)[0] == parts[0]);
        assert(parts.push(x).drop_first() =~= seq![x]);
        assert(spec_join(seq![x], sep) == x);
        assert(spec_join(parts, sep) == parts[0]);
    } else {
        assert(parts.push(x).drop_first() =~= parts.drop_first().push(x));
        lemma_join_push(parts.drop_first(), sep, x);
        assert(spec_join(parts.push(x), sep) == parts[0] + sep + spec_join(
            parts.drop_first().push(x),
            sep,
        ));
        assert(spec_join(parts.drop_first().push(x), sep) == spec_join(parts.drop_first(), sep)
            + sep + x);
        assert(parts[0] + sep + (spec_join(parts.drop_first(), sep) + sep + x) =~= (parts[0] + sep
            + spec_join(parts.drop_first(), sep)) + sep + x);
    }
}

/// Join the strings of `parts` with `sep`.
pub fn join_strings(parts: &Vec<String>, sep: &str) -> (r: String)
    ensures
        r@ == spec_join(parts@.map_values(|p: String| p@), sep@),
{
    let mut r = String::new();
    let mut i: usize = 0;
    while i < parts.len()
        invariant
            i <= parts@.len(),
            r@ == spec_join(parts@.subrange(0, i as int).map_values(|p: String| p@), sep@),
        decreases parts@.len() - i,
    {
        if i > 0 {
            r.append(sep);
        }
        r.append(parts[i].as_str());
        proof {
            let prev = parts@.subrange(0, i as int).map_values(|p: String| p@);
            let here = parts@.subrange(0, i as int + 1).map_values(|p: String| p@);
            assert(here =~= prev.push(parts@[i as int]@));
            lemma_join_push(prev, sep@, parts@[i as int]@);
            if i == 0 {
                assert(prev.len() == 0);
                assert(r@ =~= spec_join(here, sep@));
            } else {
                assert(prev.len() >= 1);
            }
        }
        i += 1;
    }
    proof {
        assert(parts@.subrange(0, parts@.len() as int) =~= parts@);
    }
    r
}

} // verus!
