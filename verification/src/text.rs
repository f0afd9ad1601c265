//! Text renderings: decimal numbers, index lists, optional names.
use vstd::prelude::*;
use vstd::string::StringExecFns;

verus! {

/// The character of a decimal digit.
pub open spec fn digit_char(d: nat) -> char {
    (48 + d) as char
}

/// The decimal digits of a natural number, without leading zeros.
pub open spec fn decimal(n: nat) -> Seq<char>
    decreases n,
{
    if n < 10 {
        seq![digit_char(n)]
    } else {
        decimal(n / 10).push(digit_char(n % 10))
    }
}

/// The decimal rendering of an integer, with a minus sign in front of a negative one.
pub open spec fn signed_decimal(n: int) -> Seq<char> {
    if n < 0 {
        seq!['-'] + decimal((-n) as nat)
    } else {
        decimal(n as nat)
    }
}

/// The numbers in decimal, a comma and a space between two of them.
pub open spec fn joined(list: Seq<usize>) -> Seq<char>
    decreases list.len(),
{
    if list.len() == 0 {
        Seq::empty()
    } else if list.len() == 1 {
        decimal(list[0] as nat)
    } else {
        joined(list.drop_last()) + ", "@ + decimal(list.last() as nat)
    }
}

/// A list of numbers in square brackets.
pub open spec fn bracketed(list: Seq<usize>) -> Seq<char> {
    "["@ + joined(list) + "]"@
}

/// `None`, or the name inside `Some(..)`.
pub open spec fn optional(name: Option<Seq<char>>) -> Seq<char> {
    match name {
        Some(n) => "Some("@ + n + ")"@,
        None => "None"@,
    }
}

fn append_digit(out: &mut String, d: usize)
    requires
        d < 10,
    ensures
        final(out)@ == old(out)@.push(digit_char(d as nat)),
{
    let text = match d {
        0 => "0",
        1 => "1",
        2 => "2",
        3 => "3",
        4 => "4",
        5 => "5",
        6 => "6",
        7 => "7",
        8 => "8",
        _ => "9",
    };
    proof {
        reveal_strlit("0");
        reveal_strlit("1");
        reveal_strlit("2");
        reveal_strlit("3");
        reveal_strlit("4");
        reveal_strlit("5");
        reveal_strlit("6");
        reveal_strlit("7");
        reveal_strlit("8");
        reveal_strlit("9");
        assert(text@ =~= seq![digit_char(d as nat)]);
        assert(old(out)@ + text@ =~= old(out)@.push(digit_char(d as nat)));
    }
    out.append(text);
}

/// Appends a number in decimal.
pub fn append_decimal(out: &mut String, n: usize)
    ensures
        final(out)@ == old(out)@ + decimal(n as nat),
    decreases n,
{
    if n >= 10 {
        append_decimal(out, n / 10);
    }
    append_digit(out, n % 10);
    proof {
        assert(out@ =~= old(out)@ + decimal(n as nat));
    }
}

/// Appends a signed number in decimal.
pub fn append_signed(out: &mut String, n: isize)
    ensures
        final(out)@ == old(out)@ + signed_decimal(n as int),
{
    if n < 0 {
        out.append("-");
        let size: usize = (-(n + 1)) as usize + 1;
        append_decimal(out, size);
        proof {
            reveal_strlit("-");
            assert(out@ =~= old(out)@ + signed_decimal(n as int));
        }
    } else {
        append_decimal(out, n as usize);
    }
}

/// Appends a list of numbers in square brackets.
pub fn append_bracketed(out: &mut String, list: &Vec<usize>)
    ensures
        final(out)@ == old(out)@ + bracketed(list@),
{
    out.append("[");
    let ghost opened = out@;
    let mut i: usize = 0;
    while i < list.len()
        invariant
            i <= list.len(),
            out@ == opened + joined(list@.take(i as int)),
        decreases list.len() - i,
    {
        if i > 0 {
            out.append(", ");
        }
        append_decimal(out, list[i]);
        proof {
            let next = list@.take(i + 1);
            assert(next.drop_last() =~= list@.take(i as int));
            assert(out@ =~= opened + joined(next));
        }
        i += 1;
    }
    proof {
        assert(list@.take(i as int) =~= list@);
    }
    out.append("]");
    proof {
        assert(out@ =~= old(out)@ + bracketed(list@));
    }
}

/// Appends `None`, or the name inside `Some(..)`.
pub fn append_optional(out: &mut String, name: Option<&str>)
    ensures
        final(out)@ == old(out)@ + optional(
            match name {
                Some(n) => Some(n@),
                None => None,
            },
        ),
{
    match name {
        Some(n) => {
            out.append("Some(");
            out.append(n);
            out.append(")");
            proof {
                assert(out@ =~= old(out)@ + optional(Some(n@)));
            }
        },
        None => {
            out.append("None");
        },
    }
}

/// The number that decimal digits name.
pub open spec fn value_of(digits: Seq<char>) -> int
    decreases digits.len(),
{
    if digits.len() == 0 {
        0
    } else {
        10 * value_of(digits.drop_last()) + (digits.last() as int - '0' as int)
    }
}

/// The rendering of a number names that number, is made of digits, and has no leading zero but
/// for the number zero.
pub proof fn law_decimal_reads_back(n: nat)
    ensures
        value_of(decimal(n)) == n,
        decimal(n).len() > 0,
        forall|k: int| 0 <= k < decimal(n).len() ==> '0' <= #[trigger] decimal(n)[k] <= '9',
        n > 0 ==> decimal(n)[0] != '0',
        n == 0 ==> decimal(n).len() == 1,
    decreases n,
{
    reveal_with_fuel(value_of, 2);
    if n >= 10 {
        law_decimal_reads_back(n / 10);
        assert(decimal(n).drop_last() =~= decimal(n / 10));
    } else {
        assert(decimal(n).drop_last() =~= Seq::<char>::empty());
    }
}

/// A negative number is shown as its size behind a minus sign, any other as it is.
pub proof fn law_signed_decimal(n: nat)
    ensures
        n > 0 ==> signed_decimal(-(n as int)) == seq!['-'] + decimal(n),
        signed_decimal(n as int) == decimal(n),
{
}

/// A list is shown as its parts are, with a comma and a space between them: one number as
/// itself, none as nothing.
pub proof fn law_joined(a: Seq<usize>, b: Seq<usize>, n: usize)
    ensures
        joined(Seq::<usize>::empty()) == Seq::<char>::empty(),
        joined(seq![n]) == decimal(n as nat),
        a.len() > 0 && b.len() > 0 ==> joined(a + b) == joined(a) + ", "@ + joined(b),
    decreases b.len(),
{
    if a.len() > 0 && b.len() > 0 {
        assert((a + b).drop_last() =~= a + b.drop_last());
        assert((a + b).last() == b.last());
        if b.len() == 1 {
            assert(a + b.drop_last() =~= a);
        } else {
            law_joined(a, b.drop_last(), n);
            assert(joined(a + b) =~= joined(a) + ", "@ + joined(b));
        }
    }
}

} // verus!
