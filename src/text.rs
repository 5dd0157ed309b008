use vstd::prelude::*;
use vstd::string::StringExecFns;

verus! {

/// The decimal digit for `d` (0 to 9).
pub open spec fn digit_char(d: int) -> char {
    if d == 0 {
        '0'
    } else if d == 1 {
        '1'
    } else if d == 2 {
        '2'
    } else if d == 3 {
        '3'
    } else if d == 4 {
        '4'
    } else if d == 5 {
        '5'
    } else if d == 6 {
        '6'
    } else if d == 7 {
        '7'
    } else if d == 8 {
        '8'
    } else {
        '9'
    }
}

/// Decimal notation of `n`, without leading zeros.
pub open spec fn decimal(n: nat) -> Seq<char>
    decreases n,
{
    if n < 10 {
        seq![digit_char(n as int)]
    } else {
        decimal(n / 10).push(digit_char((n % 10) as int))
    }
}

/// `n` spaces.
pub open spec fn spaces(n: nat) -> Seq<char> {
    Seq::new(n, |i: int| ' ')
}

/// `s` right-aligned in a column of width `w`: padded on the left, never cut.
pub open spec fn right_aligned(s: Seq<char>, w: nat) -> Seq<char> {
    if s.len() >= w {
        s
    } else {
        spaces((w - s.len()) as nat) + s
    }
}

/// `s` left-aligned in a column of exactly `w` characters: cut or padded on the right.
pub open spec fn left_fitted(s: Seq<char>, w: nat) -> Seq<char> {
    if s.len() >= w {
        s.take(w as int)
    } else {
        s + spaces((w - s.len()) as nat)
    }
}

fn digit_str(d: u64) -> (r: &'static str)
    requires
        d < 10,
    ensures
        r@ == seq![digit_char(d as int)],
{
    proof {
        reveal_strlit("0");
        reveal_strlit("1");
        reveal_strlit("2");
        reveal_strlit("3");
        reveal_strlit("4");
        reveal_strlit("5");
        reveal_strlit("6");
        reveal_strlit("7");
        reveal_strlit("8");
        reveal_strlit("9");
    }
    let r = if d == 0 {
        "0"
    } else if d == 1 {
        "1"
    } else if d == 2 {
        "2"
    } else if d == 3 {
        "3"
    } else if d == 4 {
        "4"
    } else if d == 5 {
        "5"
    } else if d == 6 {
        "6"
    } else if d == 7 {
        "7"
    } else if d == 8 {
        "8"
    } else {
        "9"
    };
    assert(r@ =~= seq![digit_char(d as int)]);
    r
}

/// Decimal notation of `n`.
pub fn decimal_string(n: u64) -> (r: String)
    ensures
        r@ == decimal(n as nat),
    decreases n,
{
    if n < 10 {
        String::from_str(digit_str(n))
    } else {
        let mut s = decimal_string(n / 10);
        s.append(digit_str(n % 10));
        s
    }
}

/// Appends `n` spaces to `s`.
pub fn push_spaces(s: &mut String, n: usize)
    ensures
        final(s)@ == old(s)@ + spaces(n as nat),
{
    let mut i: usize = 0;
    while i < n
        invariant
            i <= n,
            s@ == old(s)@ + spaces(i as nat),
        decreases n - i,
    {
        let ghost before = s@;
        s.append(" ");
        proof {
            reveal_strlit(" ");
        }
        assert(" "@ =~= seq![' ']);
        assert(s@ =~= before.push(' '));
        assert(spaces((i + 1) as nat) =~= spaces(i as nat).push(' '));
        assert(s@ =~= old(s)@ + spaces((i + 1) as nat));
        i = i + 1;
    }
}

/// Appends `t` right-aligned in a column of width `w`.
pub fn push_right_aligned(s: &mut String, t: &str, w: usize)
    ensures
        final(s)@ == old(s)@ + right_aligned(t@, w as nat),
{
    let len = t.unicode_len();
    if len < w {
        push_spaces(s, w - len);
    }
    s.append(t);
    assert(s@ =~= old(s)@ + right_aligned(t@, w as nat));
}

/// Appends `t` left-aligned in a column of exactly `w` characters.
pub fn push_left_fitted(s: &mut String, t: &str, w: usize)
    ensures
        final(s)@ == old(s)@ + left_fitted(t@, w as nat),
{
    let len = t.unicode_len();
    if len >= w {
        s.append(t.substring_char(0, w));
    } else {
        s.append(t);
        push_spaces(s, w - len);
    }
    assert(s@ =~= old(s)@ + left_fitted(t@, w as nat));
}

} // verus!
