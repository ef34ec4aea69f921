//! Small text helpers: decimal rendering of counters and the "A, B, or N
//! more" example lists used in diagnostics.

use vstd::prelude::*;

use crate::alist::strings_view;

verus! {

/// The character of one decimal digit.
pub open spec fn spec_digit_char(d: int) -> char {
    if d == 0 {
        '0'
    } else if d == 1 {
        '1'
    } else if d == 2 {
        '2'
    } else if d == 3 {
        '3'
    } else if d == 4 {
        '4'
    } else if d == 5 {
        '5'
    } else if d == 6 {
        '6'
    } else if d == 7 {
        '7'
    } else if d == 8 {
        '8'
    } else {
        '9'
    }
}

/// The decimal digits of a number, most significant first.
pub open spec fn spec_digits(n: int) -> Seq<char>
    decreases n,
{
    if n < 10 {
        seq![spec_digit_char(n)]
    } else {
        spec_digits(n / 10).push(spec_digit_char(n % 10))
    }
}

/// One decimal digit as a string slice.
fn digit_str(d: u64) -> (r: &'static str)
    requires
        d < 10,
    ensures
        r@ == seq![spec_digit_char(d as int)],
{
    proof {
        reveal_strlit("0");
        reveal_strlit("1");
        reveal_strlit("2");
        reveal_strlit("3");
        reveal_strlit("4");
        reveal_strlit("5");
        reveal_strlit("6");
        reveal_strlit("7");
        reveal_strlit("8");
        reveal_strlit("9");
    }
    let r = if d == 0 {
        "0"
    } else if d == 1 {
        "1"
    } else if d == 2 {
        "2"
    } else if d == 3 {
        "3"
    } else if d == 4 {
        "4"
    } else if d == 5 {
        "5"
    } else if d == 6 {
        "6"
    } else if d == 7 {
        "7"
    } else if d == 8 {
        "8"
    } else {
        "9"
    };
    proof {
        assert(r@ =~= seq![spec_digit_char(d as int)]);
    }
    r
}

/// Render a number in decimal.
pub fn u64_to_string(n: u64) -> (r: String)
    ensures
        r@ == spec_digits(n as int),
    decreases n,
{
    if n < 10 {
        let r = String::from_str(digit_str(n));
        proof {
            assert(r@ =~= spec_digits(n as int));
        }
        r
    } else {
        let mut r = u64_to_string(n / 10);
        r.append(digit_str(n % 10));
        proof {
            assert(r@ =~= spec_digits(n as int));
        }
        r
    }
}

/// The prefix of an example list: the first `k` entries, each followed by a
/// comma.
pub open spec fn spec_examples_prefix(vs: Seq<Seq<char>>, k: int) -> Seq<char>
    decreases k,
{
    if k <= 0 {
        Seq::empty()
    } else {
        spec_examples_prefix(vs, k - 1) + vs[k - 1] + ", "@
    }
}

/// The example list a diagnostic shows: up to five names, then either the
/// last name or a count of the remaining options.
pub open spec fn spec_list_examples(vs: Seq<Seq<char>>) -> Seq<char>
    recommends
        vs.len() > 0,
{
    let length = if vs.len() - 1 < 5 {
        vs.len() - 1
    } else {
        5
    };
    if vs.len() > 5 {
        spec_examples_prefix(vs, length as int) + "or "@ + spec_digits(vs.len() - length)
            + " more"@
    } else {
        spec_examples_prefix(vs, length as int) + "or "@ + vs.last()
    }
}

/// Build the example list for a diagnostic.
pub fn list_examples(values: &Vec<String>) -> (r: String)
    requires
        values@.len() > 0,
    ensures
        r@ == spec_list_examples(strings_view(values@)),
{
    let ghost vs = strings_view(values@);
    proof {
        assert(vs =~= Seq::new(values@.len(), |i: int| values@[i]@));
    }
    let length: usize = if values.len() - 1 < 5 {
        values.len() - 1
    } else {
        5
    };
    let mut out = String::new();
    let mut i: usize = 0;
    proof {
        assert(out@ =~= spec_examples_prefix(vs, 0));
    }
    while i < length
        invariant
            vs == strings_view(values@),
            length < values@.len(),
            i <= length,
            out@ == spec_examples_prefix(vs, i as int),
        decreases length - i,
    {
        out.append(values[i].as_str());
        out.append(", ");
        proof {
            assert(strings_view(values@)[i as int] == values@[i as int]@);
            assert(out@ =~= spec_examples_prefix(vs, i as int + 1));
        }
        i += 1;
    }
    out.append("or ");
    if values.len() > 5 {
        let count = u64_to_string((values.len() - length) as u64);
        out.append(count.as_str());
        out.append(" more");
        proof {
            assert(out@ =~= spec_list_examples(vs));
        }
    } else {
        out.append(values[values.len() - 1].as_str());
        proof {
            assert(vs.last() == values@[values@.len() - 1]@);
            assert(out@ =~= spec_list_examples(vs));
        }
    }
    out
}

} // verus!
