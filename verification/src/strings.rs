use vstd::prelude::*;
use vstd::string::StrSliceExecFns;
use vstd::string::StringExecFns;

verus! {

/// The decimal digit character for `d`, which must be below ten.
pub open spec fn spec_digit(d: nat) -> char {
    if d == 0 {
        '0'
    } else if d == 1 {
        '1'
    } else if d == 2 {
        '2'
    } else if d == 3 {
        '3'
    } else if d == 4 {
        '4'
    } else if d == 5 {
        '5'
    } else if d == 6 {
        '6'
    } else if d == 7 {
        '7'
    } else if d == 8 {
        '8'
    } else {
        '9'
    }
}

/// The decimal notation of `n`, most significant digit first, with no
/// leading zeroes (zero itself is written `0`).
pub open spec fn spec_decimal(n: nat) -> Seq<char>
    decreases n,
{
    if n < 10 {
        seq![spec_digit(n)]
    } else {
        spec_decimal(n / 10).push(spec_digit(n % 10))
    }
}

/// A run of spaces indenting one list item: four spaces per nesting level.
pub open spec fn spec_indent(depth: nat) -> Seq<char> {
    Seq::new(4 * depth, |i: int| ' ')
}

/// `s` with every doubled newline collapsed into a single one, scanning
/// left to right without rescanning what a collapse produced.
pub open spec fn spec_collapse(s: Seq<char>) -> Seq<char>
    decreases s.len(),
{
    if s.len() == 0 {
        Seq::empty()
    } else if s.len() >= 2 && s[0] == '\n' && s[1] == '\n' {
        seq!['\n'] + spec_collapse(s.skip(2))
    } else {
        seq![s[0]] + spec_collapse(s.skip(1))
    }
}

/// The one-character string slice for the digit `d`.
fn digit_str(d: usize) -> (r: &'static str)
    requires
        d < 10,
    ensures
        r@ =~= seq![spec_digit(d as nat)],
{
    proof {
        reveal_strlit("0");
        reveal_strlit("1");
        reveal_strlit("2");
        reveal_strlit("3");
        reveal_strlit("4");
        reveal_strlit("5");
        reveal_strlit("6");
        reveal_strlit("7");
        reveal_strlit("8");
        reveal_strlit("9");
    }
    match d {
        0 => "0",
        1 => "1",
        2 => "2",
        3 => "3",
        4 => "4",
        5 => "5",
        6 => "6",
        7 => "7",
        8 => "8",
        _ => "9",
    }
}

/// Writes `n` in decimal notation.
pub fn decimal_string(n: usize) -> (s: String)
    ensures
        s@ == spec_decimal(n as nat),
    decreases n,
{
    if n < 10 {
        let s = String::from_str(digit_str(n));
        proof {
            assert(s@ =~= spec_decimal(n as nat));
        }
        s
    } else {
        let mut s = decimal_string(n / 10);
        s.append(digit_str(n % 10));
        proof {
            assert(s@ =~= spec_decimal(n as nat));
        }
        s
    }
}

/// Writes the indentation for a list item at the given nesting depth.
pub fn indent_string(depth: usize) -> (s: String)
    ensures
        s@ == spec_indent(depth as nat),
{
    let mut s = String::new();
    let mut j: usize = 0;
    proof {
        reveal_strlit("    ");
        assert(s@ =~= spec_indent(0));
    }
    while j < depth
        invariant
            j <= depth,
            s@ =~= spec_indent(j as nat),
        decreases depth - j,
    {
        s.append("    ");
        j = j + 1;
        proof {
            reveal_strlit("    ");
            assert(s@ =~= spec_indent(j as nat));
        }
    }
    s
}

/// Collapses every doubled newline in `s` into a single one.
pub fn collapse_newlines(s: &str) -> (r: String)
    ensures
        r@ == spec_collapse(s@),
{
    let n = s.unicode_len();
    let mut out = String::new();
    let mut i: usize = 0;
    proof {
        reveal_strlit("\n");
        assert(s@.skip(0) =~= s@);
    }
    while i < n
        invariant
            i <= n,
            n == s@.len(),
            spec_collapse(s@) =~= out@ + spec_collapse(s@.skip(i as int)),
        decreases n - i,
    {
        let c = s.get_char(i);
        if c == '\n' && i + 1 < n && s.get_char(i + 1) == '\n' {
            out.append("\n");
            proof {
                reveal_strlit("\n");
                assert(s@.skip(i as int).skip(2) =~= s@.skip(i + 2));
                assert(spec_collapse(s@.skip(i as int)) =~= seq!['\n'] + spec_collapse(
                    s@.skip(i + 2),
                ));
                assert(spec_collapse(s@) =~= out@ + spec_collapse(s@.skip(i + 2)));
            }
            i = i + 2;
        } else {
            let piece = s.substring_char(i, i + 1);
            out.append(piece);
            proof {
                assert(piece@ =~= seq![s@[i as int]]);
                assert(s@.skip(i as int).skip(1) =~= s@.skip(i + 1));
                assert(spec_collapse(s@.skip(i as int)) =~= seq![s@[i as int]] + spec_collapse(
                    s@.skip(i + 1),
                ));
                assert(spec_collapse(s@) =~= out@ + spec_collapse(s@.skip(i + 1)));
            }
            i = i + 1;
        }
    }
    proof {
        assert(s@.skip(n as int) =~= Seq::<char>::empty());
        assert(out@ + Seq::<char>::empty() =~= out@);
    }
    out
}

} // verus!
