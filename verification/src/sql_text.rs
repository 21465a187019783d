use vstd::prelude::*;

verus! {

/// The decimal digit character for `d` (`d < 10`).
pub open spec fn digit(d: nat) -> char {
    if d == 0 {
        '0'
    } else if d == 1 {
        '1'
    } else if d == 2 {
        '2'
    } else if d == 3 {
        '3'
    } else if d == 4 {
        '4'
    } else if d == 5 {
        '5'
    } else if d == 6 {
        '6'
    } else if d == 7 {
        '7'
    } else if d == 8 {
        '8'
    } else {
        '9'
    }
}

/// The decimal rendering of `n`, most significant digit first.
pub open spec fn dec_str(n: nat) -> Seq<char>
    decreases n,
{
    if n < 10 {
        seq![digit(n)]
    } else {
        dec_str(n / 10) + seq![digit(n % 10)]
    }
}

/// The single-character string for a decimal digit.
fn digit_str(d: u64) -> (r: &'static str)
    requires
        d < 10,
    ensures
        r@ == seq![digit(d as nat)],
{
    proof {
        reveal_strlit("0");
        reveal_strlit("1");
        reveal_strlit("2");
        reveal_strlit("3");
        reveal_strlit("4");
        reveal_strlit("5");
        reveal_strlit("6");
        reveal_strlit("7");
        reveal_strlit("8");
        reveal_strlit("9");
    }
    let r = if d == 0 {
        "0"
    } else if d == 1 {
        "1"
    } else if d == 2 {
        "2"
    } else if d == 3 {
        "3"
    } else if d == 4 {
        "4"
    } else if d == 5 {
        "5"
    } else if d == 6 {
        "6"
    } else if d == 7 {
        "7"
    } else if d == 8 {
        "8"
    } else {
        "9"
    };
    proof {
        assert(r@ =~= seq![digit(d as nat)]);
    }
    r
}

/// Render `n` in decimal, exactly as `dec_str` states it.
pub fn u64_to_dec(n: u64) -> (r: String)
    ensures
        r@ == dec_str(n as nat),
    decreases n,
{
    if n < 10 {
        String::from_str(digit_str(n))
    } else {
        let mut s = u64_to_dec(n / 10);
        s.append(digit_str(n % 10));
        s
    }
}

/// `parts` joined by `sep`.
pub open spec fn joined(parts: Seq<Seq<char>>, sep: Seq<char>) -> Seq<char>
    decreases parts.len(),
{
    if parts.len() == 0 {
        Seq::empty()
    } else if parts.len() == 1 {
        parts[0]
    } else {
        joined(parts.drop_last(), sep) + sep + parts.last()
    }
}

/// The views of a list of strings.
pub open spec fn views_of(parts: Seq<String>) -> Seq<Seq<char>> {
    parts.map_values(|s: String| s@)
}

/// Join strings with a separator, exactly as `joined` states it.
pub fn join_strs(parts: &Vec<String>, sep: &str) -> (r: String)
    ensures
        r@ == joined(views_of(parts@), sep@),
{
    let ghost m = views_of(parts@);
    let mut acc = String::new();
    let mut i: usize = 0;
    while i < parts.len()
        invariant
            i <= parts@.len(),
            m == views_of(parts@),
            m.len() == parts@.len(),
            acc@ == joined(m.take(i as int), sep@),
        decreases parts@.len() - i,
    {
        if i > 0 {
            acc.append(sep);
        }
        acc.append(parts[i].as_str());
        proof {
            assert(m.take(i + 1 as int).drop_last() =~= m.take(i as int));
            assert(m.take(i + 1 as int).last() == m[i as int]);
            assert(m[i as int] == parts@[i as int]@);
            if i == 0 {
                assert(joined(m.take(1), sep@) == m.take(1)[0]);
            }
        }
        i = i + 1;
    }
    proof {
        assert(m.take(parts@.len() as int) =~= m);
    }
    acc
}

/// A column name in Postgres double quotes.
pub open spec fn quoted(col: Seq<char>) -> Seq<char> {
    seq!['"'] + col + seq!['"']
}

/// Quote a column name for Postgres, exactly as `quoted` states it.
pub fn quote(col: &String) -> (r: String)
    ensures
        r@ == quoted(col@),
{
    proof {
        reveal_strlit("\"");
    }
    let mut s = String::from_str("\"");
    s.append(col.as_str());
    s.append("\"");
    proof {
        assert("\""@ =~= seq!['"']);
    }
    s
}

/// Quote every column of a list.
pub fn quote_cols(cols: &Vec<String>) -> (r: Vec<String>)
    ensures
        r@.len() == cols@.len(),
        forall|i: int| 0 <= i < r@.len() ==> r@[i]@ == quoted(cols@[i]@),
{
    let mut out: Vec<String> = Vec::new();
    let mut i: usize = 0;
    while i < cols.len()
        invariant
            i <= cols@.len(),
            out@.len() == i,
            forall|j: int| 0 <= j < i ==> out@[j]@ == quoted(cols@[j]@),
        decreases cols@.len() - i,
    {
        out.push(quote(&cols[i]));
        i = i + 1;
    }
    out
}

/// The Postgres placeholder `$i`.
pub open spec fn placeholder(i: nat) -> Seq<char> {
    seq!['$'] + dec_str(i)
}

/// Render the Postgres placeholder `$i`, exactly as `placeholder` states
/// it.
pub fn placeholder_str(i: u64) -> (r: String)
    ensures
        r@ == placeholder(i as nat),
{
    proof {
        reveal_strlit("$");
    }
    let mut s = String::from_str("$");
    let d = u64_to_dec(i);
    s.append(d.as_str());
    proof {
        assert("$"@ =~= seq!['$']);
    }
    s
}

} // verus!
