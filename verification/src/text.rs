//! Numbers as text.

use vstd::arithmetic::power::pow;
use vstd::prelude::*;
use vstd::string::StringExecFns;

verus! {

/// The decimal digits.
pub open spec fn digit(d: nat) -> char {
    seq!['0', '1', '2', '3', '4', '5', '6', '7', '8', '9'][d as int]
}

/// `n` in decimal.
pub open spec fn decimal_text(n: nat) -> Seq<char>
    decreases n,
{
    if n < 10 {
        seq![digit(n)]
    } else {
        decimal_text(n / 10).push(digit(n % 10))
    }
}

/// `n` in decimal with zeros put before it up to the given width.
pub open spec fn padded_text(n: nat, width: nat) -> Seq<char> {
    let t = decimal_text(n);
    if t.len() < width {
        Seq::new((width - t.len()) as nat, |i: int| '0') + t
    } else {
        t
    }
}

/// `n` in decimal with zeros put before its digits up to the given width, in
/// which a sign counts.
pub open spec fn signed_padded_text(n: int, width: nat) -> Seq<char> {
    if n < 0 {
        seq!['-'] + padded_text((-n) as nat, if width == 0 {
            0
        } else {
            (width - 1) as nat
        })
    } else {
        padded_text(n as nat, width)
    }
}

/// One digit.
fn digit_str(d: u64) -> (r: &'static str)
    requires
        d < 10,
    ensures
        r@ == seq![digit(d as nat)],
{
    let r = match d {
        0 => "0",
        1 => "1",
        2 => "2",
        3 => "3",
        4 => "4",
        5 => "5",
        6 => "6",
        7 => "7",
        8 => "8",
        _ => "9",
    };
    proof {
        reveal_strlit("0");
        reveal_strlit("1");
        reveal_strlit("2");
        reveal_strlit("3");
        reveal_strlit("4");
        reveal_strlit("5");
        reveal_strlit("6");
        reveal_strlit("7");
        reveal_strlit("8");
        reveal_strlit("9");
        assert(r@ =~= seq![digit(d as nat)]);
    }
    r
}

/// `n` in decimal.
pub fn decimal(n: u64) -> (r: String)
    ensures
        r@ == decimal_text(n as nat),
    decreases n,
{
    if n < 10 {
        digit_str(n).to_owned()
    } else {
        let mut s = decimal(n / 10);
        s.append(digit_str(n % 10));
        proof {
            assert(s@ =~= decimal_text(n as nat));
        }
        s
    }
}

/// `n` in decimal with zeros put before it up to the given width.
pub fn padded(n: u64, width: usize) -> (r: String)
    ensures
        r@ == padded_text(n as nat, width as nat),
{
    let digits = decimal(n);
    let len: usize = digits.as_str().unicode_len();
    let mut s = String::new();
    let mut i: usize = len;
    while i < width
        invariant
            len == digits@.len(),
            len <= i <= width || i == len,
            s@ == Seq::new((i - len) as nat, |k: int| '0'),
        decreases width - i,
    {
        s.append("0");
        proof {
            reveal_strlit("0");
            assert(s@ =~= Seq::new((i + 1 - len) as nat, |k: int| '0'));
        }
        i += 1;
    }
    s.append(digits.as_str());
    proof {
        assert(s@ =~= padded_text(n as nat, width as nat));
    }
    s
}

/// `n` in decimal with zeros put before its digits up to the given width.
pub fn signed_padded(n: i32, width: usize) -> (r: String)
    ensures
        r@ == signed_padded_text(n as int, width as nat),
{
    if n >= 0 {
        return padded(n as u64, width);
    }
    let mut s = "-".to_owned();
    s.append(padded((-(n as i64)) as u64, width.saturating_sub(1)).as_str());
    proof {
        reveal_strlit("-");
        assert(s@ =~= signed_padded_text(n as int, width as nat));
    }
    s
}

/// Whether a character is a decimal digit.
pub open spec fn is_digit(c: char) -> bool {
    '0' <= c <= '9'
}

/// The number that decimal digits stand for.
pub open spec fn number_of(digits: Seq<char>) -> int
    decreases digits.len(),
{
    if digits.len() == 0 {
        0
    } else {
        10 * number_of(digits.drop_last()) + (digits.last() as int - '0' as int)
    }
}

/// A digit is a digit, and stands for the number that it was made of.
proof fn lemma_digit(d: nat)
    requires
        d < 10,
    ensures
        is_digit(digit(d)),
        digit(d) as int - '0' as int == d,
{
    assert(d == 0 || d == 1 || d == 2 || d == 3 || d == 4 || d == 5 || d == 6 || d == 7 || d == 8
        || d == 9);
}

/// A number in decimal consists of digits, which stand for it, without needless
/// zeros before it.
pub proof fn decimals_stand_for_their_number(n: nat)
    ensures
        decimal_text(n).len() >= 1,
        forall|i: int| 0 <= i < decimal_text(n).len() ==> is_digit(#[trigger] decimal_text(n)[i]),
        number_of(decimal_text(n)) == n,
        decimal_text(n)[0] == '0' <==> n == 0,
    decreases n,
{
    reveal_with_fuel(number_of, 2);
    if n < 10 {
        lemma_digit(n);
        assert(decimal_text(n).drop_last() =~= Seq::empty());
    } else {
        decimals_stand_for_their_number(n / 10);
        lemma_digit(n % 10);
        assert(decimal_text(n).drop_last() =~= decimal_text(n / 10));
    }
}

/// A number below `10^k` has at most `k` digits.
pub proof fn small_numbers_are_short(n: nat, k: nat)
    requires
        n < pow(10, k),
        k > 0,
    ensures
        decimal_text(n).len() <= k,
    decreases k,
{
    reveal(pow);
    if n >= 10 {
        if k == 1 {
            assert(pow(10, 1) == 10 * pow(10, 0));
        }
        assert(pow(10, k) == 10 * pow(10, (k - 1) as nat));
        small_numbers_are_short(n / 10, (k - 1) as nat);
    }
}

/// Zeros before digits change nothing of what they stand for.
proof fn lemma_zeros(zeros: nat, digits: Seq<char>)
    ensures
        number_of(Seq::new(zeros, |i: int| '0') + digits) == number_of(digits),
    decreases zeros + digits.len(),
{
    let z = Seq::new(zeros, |i: int| '0');
    let all = z + digits;
    if digits.len() > 0 {
        assert(all.drop_last() =~= z + digits.drop_last());
        lemma_zeros(zeros, digits.drop_last());
    } else if zeros > 0 {
        assert(all.drop_last() =~= Seq::new((zeros - 1) as nat, |i: int| '0') + digits);
        lemma_zeros((zeros - 1) as nat, digits);
    } else {
        assert(all =~= digits);
    }
}

/// A padded number consists of digits, which stand for it. It is as long as the
/// width, unless the number itself is longer, and then has no zeros before it.
pub proof fn padded_numbers_fill_the_width(n: nat, width: nat)
    ensures
        padded_text(n, width).len() >= width,
        padded_text(n, width).len() >= 1,
        forall|i: int|
            0 <= i < padded_text(n, width).len() ==> is_digit(
                #[trigger] padded_text(n, width)[i],
            ),
        number_of(padded_text(n, width)) == n,
        padded_text(n, width).len() > width && n > 0 ==> padded_text(n, width)[0] != '0',
        n == 0 ==> padded_text(n, width).len() == (if width == 0 {
            1
        } else {
            width
        }),
{
    let t = decimal_text(n);
    decimals_stand_for_their_number(n);
    if t.len() < width {
        let zeros = Seq::new((width - t.len()) as nat, |i: int| '0');
        lemma_zeros((width - t.len()) as nat, t);
        assert forall|i: int| 0 <= i < padded_text(n, width).len() implies is_digit(
            #[trigger] padded_text(n, width)[i],
        ) by {
            if i >= zeros.len() {
                assert(padded_text(n, width)[i] == t[i - zeros.len()]);
            }
        }
    }
}

/// A number below `10^width` is padded to just that width.
pub proof fn small_numbers_fill_just_the_width(n: nat, width: nat)
    requires
        n < pow(10, width),
        width > 0,
    ensures
        padded_text(n, width).len() == width,
{
    small_numbers_are_short(n, width);
}

/// A negative number has its sign in front and is padded behind it; another has
/// none.
pub proof fn signs_stand_in_front(n: int, width: nat)
    requires
        width > 0,
    ensures
        signed_padded_text(n, width).len() >= width,
        n >= 0 ==> signed_padded_text(n, width) == padded_text(n as nat, width),
        n < 0 ==> {
            let t = signed_padded_text(n, width);
            &&& t[0] == '-'
            &&& forall|i: int| 1 <= i < t.len() ==> is_digit(#[trigger] t[i])
            &&& number_of(t.skip(1)) == -n
            &&& t.len() > width ==> t[1] != '0'
        },
{
    if n < 0 {
        let rest = padded_text((-n) as nat, (width - 1) as nat);
        let t = signed_padded_text(n, width);
        padded_numbers_fill_the_width((-n) as nat, (width - 1) as nat);
        assert(t.skip(1) =~= rest);
        assert forall|i: int| 1 <= i < t.len() implies is_digit(#[trigger] t[i]) by {
            assert(t[i] == rest[i - 1]);
        }
    } else {
        padded_numbers_fill_the_width(n as nat, width);
    }
}

/// Numbers are written so that their digits stand for them, filled up to the width.
pub proof fn numbers_are_written_in_digits(n: u64, width: usize, plain: String, filled: String)
    requires
        call_ensures(decimal, (n,), plain),
        call_ensures(padded, (n, width), filled),
    ensures
        number_of(plain@) == n,
        number_of(filled@) == n,
        plain@[0] == '0' <==> n == 0,
        filled@.len() == (if width > plain@.len() {
            width as nat
        } else {
            plain@.len()
        }),
{
    decimals_stand_for_their_number(n as nat);
    padded_numbers_fill_the_width(n as nat, width as nat);
}

/// Numbers with a sign are written with it in front, if they are below zero.
pub proof fn signed_numbers_are_written_in_digits(n: i32, width: usize, filled: String)
    requires
        call_ensures(signed_padded, (n, width), filled),
        width > 0,
    ensures
        filled@.len() >= width,
        n >= 0 ==> number_of(filled@) == n,
        n < 0 ==> filled@[0] == '-' && number_of(filled@.skip(1)) == -n,
{
    signs_stand_in_front(n as int, width as nat);
    if n >= 0 {
        padded_numbers_fill_the_width(n as nat, width as nat);
    }
}

} // verus!
