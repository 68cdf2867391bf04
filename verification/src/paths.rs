//! Where a chunk is saved: the name of its file and of the directories above it.

use vstd::prelude::*;
use vstd::string::StringExecFns;
use crate::keyed::ChunkKey;

verus! {

/// The character of a decimal digit.
pub open spec fn digit_char(d: int) -> char {
    if d == 0 {
        '0'
    } else if d == 1 {
        '1'
    } else if d == 2 {
        '2'
    } else if d == 3 {
        '3'
    } else if d == 4 {
        '4'
    } else if d == 5 {
        '5'
    } else if d == 6 {
        '6'
    } else if d == 7 {
        '7'
    } else if d == 8 {
        '8'
    } else {
        '9'
    }
}

/// The decimal digits of a natural number, without leading zeros.
pub open spec fn decimal(n: int) -> Seq<char>
    decreases n,
{
    if n < 10 {
        seq![digit_char(n)]
    } else {
        decimal(n / 10).push(digit_char(n % 10))
    }
}

/// The decimal form of an integer, with a minus sign where it is negative.
pub open spec fn signed_decimal(x: int) -> Seq<char> {
    if x < 0 {
        seq!['-'] + decimal(-x)
    } else {
        decimal(x)
    }
}

/// The name of the file that holds the chunk at `key`: its X and Z coordinates
/// in decimal, separated by a dot, with the extension `chunk`.
pub open spec fn chunk_file_name_of(key: ChunkKey) -> Seq<char> {
    signed_decimal(key.x as int) + seq!['.'] + signed_decimal(key.z as int) + seq![
        '.',
        'c',
        'h',
        'u',
        'n',
        'k',
    ]
}

/// The text of digits that were collected lowest first.
pub open spec fn digits_text(digits: Seq<u8>) -> Seq<char> {
    Seq::new(digits.len(), |j: int| digit_char(digits[digits.len() - 1 - j] as int))
}

fn digit_str(d: u8) -> (s: &'static str)
    requires
        d < 10,
    ensures
        s@ == seq![digit_char(d as int)],
{
    proof {
        reveal_strlit("0");
        reveal_strlit("1");
        reveal_strlit("2");
        reveal_strlit("3");
        reveal_strlit("4");
        reveal_strlit("5");
        reveal_strlit("6");
        reveal_strlit("7");
        reveal_strlit("8");
        reveal_strlit("9");
    }
    let s = if d == 0 {
        "0"
    } else if d == 1 {
        "1"
    } else if d == 2 {
        "2"
    } else if d == 3 {
        "3"
    } else if d == 4 {
        "4"
    } else if d == 5 {
        "5"
    } else if d == 6 {
        "6"
    } else if d == 7 {
        "7"
    } else if d == 8 {
        "8"
    } else {
        "9"
    };
    assert(s@ =~= seq![digit_char(d as int)]);
    s
}

/// Appends the decimal form of `x` to `out`.
pub fn append_decimal(out: &mut String, x: i32)
    ensures
        final(out)@ == old(out)@ + signed_decimal(x as int),
{
    let negative = x < 0;
    let magnitude: u64 = if negative {
        (-(x as i64)) as u64
    } else {
        x as u64
    };
    if negative {
        proof {
            reveal_strlit("-");
        }
        out.append("-");
        assert(out@ =~= old(out)@ + seq!['-']);
    } else {
        assert(out@ =~= old(out)@ + Seq::<char>::empty());
    }
    let ghost prefix = out@;
    let mut digits: Vec<u8> = Vec::new();
    let mut m: u64 = magnitude;
    assert(decimal(magnitude as int) =~= decimal(m as int) + digits_text(digits@));
    while m >= 10
        invariant
            decimal(magnitude as int) == decimal(m as int) + digits_text(digits@),
            forall|j: int| 0 <= j < digits@.len() ==> digits@[j] < 10,
        decreases m,
    {
        let d: u8 = (m % 10) as u8;
        let ghost before = digits@;
        digits.push(d);
        proof {
            assert(digits_text(digits@) =~= seq![digit_char(d as int)] + digits_text(before));
            assert(decimal(m as int) == decimal(m as int / 10).push(digit_char(d as int)));
            assert(decimal(magnitude as int) =~= decimal(m as int / 10) + digits_text(digits@));
        }
        m = m / 10;
    }
    let ghost before = digits@;
    digits.push(m as u8);
    proof {
        assert(digits_text(digits@) =~= seq![digit_char(m as int)] + digits_text(before));
        assert(decimal(magnitude as int) =~= digits_text(digits@));
    }
    let n = digits.len();
    let mut i: usize = n;
    assert(out@ =~= prefix + digits_text(digits@).subrange(0, 0));
    while i > 0
        invariant
            i <= n,
            n == digits@.len(),
            forall|j: int| 0 <= j < digits@.len() ==> digits@[j] < 10,
            out@ == prefix + digits_text(digits@).subrange(0, n - i),
        decreases i,
    {
        i = i - 1;
        let ghost so_far = out@;
        out.append(digit_str(digits[i]));
        proof {
            let text = digits_text(digits@);
            assert(text[n - 1 - i] == digit_char(digits@[i as int] as int));
            assert(text.subrange(0, n - i) =~= text.subrange(0, n - 1 - i).push(text[n - 1 - i]));
            assert(out@ =~= prefix + text.subrange(0, n - i));
        }
    }
    proof {
        let text = digits_text(digits@);
        assert(text.subrange(0, n as int) =~= text);
        if negative {
            assert(out@ =~= old(out)@ + (seq!['-'] + decimal(-(x as int))));
        }
    }
}

/// The name of the file that holds the chunk at `key`.
pub fn chunk_file_name(key: ChunkKey) -> (name: String)
    ensures
        name@ == chunk_file_name_of(key),
{
    let mut name = String::new();
    assert(name@ =~= Seq::<char>::empty());
    append_decimal(&mut name, key.x);
    proof {
        reveal_strlit(".");
        reveal_strlit(".chunk");
    }
    name.append(".");
    append_decimal(&mut name, key.z);
    name.append(".chunk");
    assert(name@ =~= chunk_file_name_of(key));
    name
}

/// The directory under the platform's data directory that belongs to this
/// application.
pub fn app_directory_name() -> (name: &'static str)
    ensures
        name@ == ".yavafg"@,
{
    ".yavafg"
}

/// The directory under the application's directory that holds one directory
/// per saved world.
pub fn saves_directory_name() -> (name: &'static str)
    ensures
        name@ == "saved_worlds"@,
{
    "saved_worlds"
}

} // verus!
