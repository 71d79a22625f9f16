//! Verified helpers on strings: equality against a literal, substring
//! search, and decimal rendering of a page-size cap for query parameters.

use vstd::prelude::*;

verus! {

/// Whether `needle` occurs in `hay` starting at position `i`.
pub open spec fn matches_at(hay: Seq<char>, needle: Seq<char>, i: int) -> bool {
    0 <= i && i + needle.len() <= hay.len() && (forall|j: int|
        0 <= j < needle.len() ==> hay[i + j] == needle[j])
}

/// Whether `needle` occurs anywhere in `hay`.
pub open spec fn contains_seq(hay: Seq<char>, needle: Seq<char>) -> bool {
    exists|i: int| matches_at(hay, needle, i)
}

/// String content equality, stated over the character views.
pub fn str_eq(a: &String, b: &str) -> (r: bool)
    ensures
        r == (a@ == b@),
{
    let owned: String = b.to_owned();
    *a == owned
}

/// Whether `needle` matches `hay` at character position `i`.
fn matches_here(hay: &str, needle: &str, i: usize, hlen: usize, nlen: usize) -> (r: bool)
    requires
        hlen == hay@.len(),
        nlen == needle@.len(),
        i + nlen <= hlen,
    ensures
        r == matches_at(hay@, needle@, i as int),
{
    let mut j: usize = 0;
    while j < nlen
        invariant
            hlen == hay@.len(),
            nlen == needle@.len(),
            i + nlen <= hlen,
            j <= nlen,
            forall|t: int| 0 <= t < j ==> hay@[i + t] == needle@[t],
        decreases nlen - j,
    {
        if hay.get_char(i + j) != needle.get_char(j) {
            return false;
        }
        j += 1;
    }
    true
}

/// Substring search over character views.
pub fn str_contains(hay: &str, needle: &str) -> (r: bool)
    ensures
        r == contains_seq(hay@, needle@),
{
    let hlen = hay.unicode_len();
    let nlen = needle.unicode_len();
    if nlen > hlen {
        return false;
    }
    let mut i: usize = 0;
    while i <= hlen - nlen
        invariant
            hlen == hay@.len(),
            nlen == needle@.len(),
            nlen <= hlen,
            i <= hlen - nlen + 1,
            forall|k: int| 0 <= k < i ==> !matches_at(hay@, needle@, k),
        decreases hlen - nlen - i + 1,
    {
        if matches_here(hay, needle, i, hlen, nlen) {
            return true;
        }
        i += 1;
    }
    assert(forall|k: int| matches_at(hay@, needle@, k) ==> 0 <= k <= hlen - nlen);
    false
}

/// The character for one decimal digit.
pub open spec fn digit_char(d: nat) -> char {
    if d == 0 {
        '0'
    } else if d == 1 {
        '1'
    } else if d == 2 {
        '2'
    } else if d == 3 {
        '3'
    } else if d == 4 {
        '4'
    } else if d == 5 {
        '5'
    } else if d == 6 {
        '6'
    } else if d == 7 {
        '7'
    } else if d == 8 {
        '8'
    } else {
        '9'
    }
}

/// The decimal rendering of `n`, most significant digit first, no sign and
/// no leading zero except for zero itself.
pub open spec fn decimal_digits(n: nat) -> Seq<char>
    decreases n,
{
    if n < 10 {
        seq![digit_char(n)]
    } else {
        decimal_digits(n / 10).push(digit_char(n % 10))
    }
}

/// The digits `ds`, least significant first, rendered most significant first.
spec fn digits_reversed(ds: Seq<u8>) -> Seq<char>
    decreases ds.len(),
{
    if ds.len() == 0 {
        Seq::empty()
    } else {
        digits_reversed(ds.skip(1)) + seq![digit_char(ds[0] as nat)]
    }
}

proof fn lemma_digits_reversed_push(ds: Seq<u8>, d: u8)
    ensures
        digits_reversed(ds.push(d)) == seq![digit_char(d as nat)] + digits_reversed(ds),
    decreases ds.len(),
{
    if ds.len() == 0 {
        assert(ds =~= Seq::<u8>::empty());
        assert(ds.push(d).skip(1) =~= ds);
        assert(digits_reversed(ds.push(d)) =~= seq![digit_char(d as nat)] + digits_reversed(ds));
    } else {
        assert(ds.push(d).skip(1) =~= ds.skip(1).push(d));
        lemma_digits_reversed_push(ds.skip(1), d);
        assert(digits_reversed(ds.push(d)) =~= seq![digit_char(d as nat)] + digits_reversed(ds));
    }
}

/// One decimal digit as a string slice.
fn digit_str(d: u8) -> (r: &'static str)
    requires
        d < 10,
    ensures
        r@ == seq![digit_char(d as nat)],
{
    proof {
        reveal_strlit("0");
        reveal_strlit("1");
        reveal_strlit("2");
        reveal_strlit("3");
        reveal_strlit("4");
        reveal_strlit("5");
        reveal_strlit("6");
        reveal_strlit("7");
        reveal_strlit("8");
        reveal_strlit("9");
    }
    let r = match d {
        0 => "0",
        1 => "1",
        2 => "2",
        3 => "3",
        4 => "4",
        5 => "5",
        6 => "6",
        7 => "7",
        8 => "8",
        _ => "9",
    };
    proof {
        assert(r@ =~= seq![digit_char(d as nat)]);
    }
    r
}

/// Renders `n` in decimal.
pub fn decimal_string(n: usize) -> (r: String)
    ensures
        r@ == decimal_digits(n as nat),
{
    let mut ds: Vec<u8> = Vec::new();
    ds.push((n % 10) as u8);
    let mut m: usize = n / 10;
    proof {
        assert(digits_reversed(Seq::<u8>::empty()) == Seq::<char>::empty());
        if n < 10 {
            assert(ds@.skip(1) =~= Seq::<u8>::empty());
            assert(digits_reversed(ds@) =~= decimal_digits(n as nat));
        } else {
            assert(ds@.skip(1) =~= Seq::<u8>::empty());
            assert(digits_reversed(ds@) =~= seq![digit_char((n % 10) as nat)]);
            assert(decimal_digits(n as nat) =~= decimal_digits((n / 10) as nat) + digits_reversed(
                ds@,
            ));
        }
    }
    while m > 0
        invariant
            ds@.len() >= 1,
            forall|t: int| 0 <= t < ds@.len() ==> ds@[t] < 10,
            decimal_digits(n as nat) == if m == 0 {
                digits_reversed(ds@)
            } else {
                decimal_digits(m as nat) + digits_reversed(ds@)
            },
        decreases m,
    {
        let ghost old_ds = ds@;
        let d: u8 = (m % 10) as u8;
        ds.push(d);
        proof {
            lemma_digits_reversed_push(old_ds, d);
        }
        if m < 10 {
            proof {
                assert(decimal_digits(m as nat) =~= seq![digit_char(d as nat)]);
                assert(decimal_digits(m as nat) + digits_reversed(old_ds) =~= digits_reversed(
                    ds@,
                ));
            }
        } else {
            proof {
                assert(decimal_digits(m as nat) =~= decimal_digits((m / 10) as nat).push(
                    digit_char(d as nat),
                ));
                assert(decimal_digits(m as nat) + digits_reversed(old_ds) =~= decimal_digits(
                    (m / 10) as nat,
                ) + digits_reversed(ds@));
            }
        }
        m = m / 10;
    }
    let mut out: String = String::new();
    let mut k: usize = ds.len();
    proof {
        assert(ds@.skip(ds@.len() as int) =~= Seq::<u8>::empty());
    }
    while k > 0
        invariant
            k <= ds@.len(),
            forall|t: int| 0 <= t < ds@.len() ==> ds@[t] < 10,
            out@ == digits_reversed(ds@.skip(k as int)),
        decreases k,
    {
        let ghost before = out@;
        let piece = digit_str(ds[k - 1]);
        out.append(piece);
        k = k - 1;
        proof {
            assert(ds@.skip(k as int).skip(1) =~= ds@.skip(k as int + 1));
            assert(out@ =~= digits_reversed(ds@.skip(k as int)));
        }
    }
    proof {
        assert(ds@.skip(0) =~= ds@);
    }
    out
}

} // verus!
