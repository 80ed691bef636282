//! Building text: decimal numerals, joined lists and indented blocks.
use vstd::prelude::*;
use vstd::string::{StrSliceExecFns, StringExecFns};

verus! {

/// The numeral of one decimal digit.
pub open spec fn digit(d: nat) -> Seq<char> {
    if d == 0 {
        "0"@
    } else if d == 1 {
        "1"@
    } else if d == 2 {
        "2"@
    } else if d == 3 {
        "3"@
    } else if d == 4 {
        "4"@
    } else if d == 5 {
        "5"@
    } else if d == 6 {
        "6"@
    } else if d == 7 {
        "7"@
    } else if d == 8 {
        "8"@
    } else {
        "9"@
    }
}

/// The decimal numeral of `n`, without leading zeros.
pub open spec fn decimal(n: nat) -> Seq<char>
    decreases n,
{
    if n < 10 {
        digit(n)
    } else {
        decimal(n / 10) + digit(n % 10)
    }
}

/// The decimal numeral of `v`, with a minus sign when it is negative.
pub open spec fn signed_decimal(v: int) -> Seq<char> {
    if v < 0 {
        "-"@ + decimal((-v) as nat)
    } else {
        decimal(v as nat)
    }
}

/// The items of `xs` with `sep` between each two.
pub open spec fn join(xs: Seq<Seq<char>>, sep: Seq<char>) -> Seq<char>
    decreases xs.len(),
{
    if xs.len() == 0 {
        Seq::empty()
    } else if xs.len() == 1 {
        xs[0]
    } else {
        join(xs.drop_last(), sep) + sep + xs.last()
    }
}

/// `t` with two spaces after each line break.
pub open spec fn indent(t: Seq<char>) -> Seq<char>
    decreases t.len(),
{
    if t.len() == 0 {
        Seq::empty()
    } else {
        indent(t.drop_last()) + if t.last() == '\n' {
            "\n  "@
        } else {
            seq![t.last()]
        }
    }
}

pub open spec fn indent_all(xs: Seq<Seq<char>>) -> Seq<Seq<char>> {
    xs.map_values(|x: Seq<char>| indent(x))
}

/// `t`, `n` times over.
pub open spec fn repeat(t: Seq<char>, n: nat) -> Seq<char>
    decreases n,
{
    if n == 0 {
        Seq::empty()
    } else {
        repeat(t, (n - 1) as nat) + t
    }
}

/// The views of a sequence of strings.
pub open spec fn views(v: Seq<String>) -> Seq<Seq<char>> {
    v.map_values(|t: String| t@)
}

/// Appends the decimal numeral of `n`.
pub fn push_decimal(out: &mut String, n: u64)
    ensures
        final(out)@ == old(out)@ + decimal(n as nat),
    decreases n,
{
    if n >= 10 {
        push_decimal(out, n / 10);
    }
    let d = n % 10;
    let t = if d == 0 {
        "0"
    } else if d == 1 {
        "1"
    } else if d == 2 {
        "2"
    } else if d == 3 {
        "3"
    } else if d == 4 {
        "4"
    } else if d == 5 {
        "5"
    } else if d == 6 {
        "6"
    } else if d == 7 {
        "7"
    } else if d == 8 {
        "8"
    } else {
        "9"
    };
    out.append(t);
    proof {
        if n >= 10 {
            assert(final(out)@ =~= old(out)@ + decimal(n as nat));
        }
    }
}

/// Appends the signed decimal numeral of `v`.
pub fn push_signed_decimal(out: &mut String, v: i64)
    ensures
        final(out)@ == old(out)@ + signed_decimal(v as int),
{
    if v < 0 {
        out.append("-");
        let m: u64 = if v == i64::MIN {
            0x8000_0000_0000_0000
        } else {
            (-v) as u64
        };
        push_decimal(out, m);
        assert(final(out)@ =~= old(out)@ + signed_decimal(v as int));
    } else {
        push_decimal(out, v as u64);
    }
}

proof fn lemma_join_step(xs: Seq<Seq<char>>, sep: Seq<char>, i: int)
    requires
        0 <= i < xs.len(),
    ensures
        join(xs.take(i + 1), sep) == if i == 0 {
            xs[0]
        } else {
            join(xs.take(i), sep) + sep + xs[i]
        },
{
    assert(xs.take(i + 1).drop_last() =~= xs.take(i));
}

/// Appends `items[lo..]`, with `sep` between each two.
pub fn push_joined(out: &mut String, items: &Vec<String>, lo: usize, sep: &str)
    requires
        lo <= items.len(),
    ensures
        final(out)@ == old(out)@ + join(views(items@).skip(lo as int), sep@),
{
    let ghost xs = views(items@).skip(lo as int);
    let mut i: usize = lo;
    assert(xs.take(0) =~= Seq::<Seq<char>>::empty());
    while i < items.len()
        invariant
            lo <= i <= items.len(),
            xs == views(items@).skip(lo as int),
            out@ == old(out)@ + join(xs.take(i - lo), sep@),
        decreases items.len() - i,
    {
        proof {
            lemma_join_step(xs, sep@, i - lo);
        }
        if i > lo {
            out.append(sep);
        }
        out.append(items[i].as_str());
        proof {
            assert(xs[i - lo] == items@[i as int]@);
            if i > lo {
                assert(out@ =~= old(out)@ + join(xs.take(i + 1 - lo), sep@));
            } else {
                assert(out@ =~= old(out)@ + join(xs.take(i + 1 - lo), sep@));
            }
        }
        i = i + 1;
    }
    assert(xs.take(i - lo) =~= xs);
}

proof fn lemma_indent_plain(t: Seq<char>, a: int, b: int)
    requires
        0 <= a <= b <= t.len(),
        forall|k: int| a <= k < b ==> t[k] != '\n',
    ensures
        indent(t.take(b)) == indent(t.take(a)) + t.subrange(a, b),
    decreases b - a,
{
    if a < b {
        lemma_indent_plain(t, a, b - 1);
        assert(t.take(b).drop_last() =~= t.take(b - 1));
        assert(t.subrange(a, b) =~= t.subrange(a, b - 1).push(t[b - 1]));
        assert(indent(t.take(b)) =~= indent(t.take(a)) + t.subrange(a, b));
    } else {
        assert(t.subrange(a, b) =~= Seq::<char>::empty());
        assert(indent(t.take(a)) + t.subrange(a, b) =~= indent(t.take(a)));
    }
}

/// Appends `t` with two spaces after each line break.
pub fn push_indented(out: &mut String, t: &String)
    ensures
        final(out)@ == old(out)@ + indent(t@),
{
    let s = t.as_str();
    let n = s.unicode_len();
    let mut start: usize = 0;
    let mut i: usize = 0;
    assert(t@.take(0) =~= Seq::<char>::empty());
    while i < n
        invariant
            0 <= start <= i <= n,
            n == t@.len(),
            s@ == t@,
            out@ == old(out)@ + indent(t@.take(start as int)),
            forall|k: int| start <= k < i ==> t@[k] != '\n',
        decreases n - i,
    {
        let c = s.get_char(i);
        if c == '\n' {
            proof {
                lemma_indent_plain(t@, start as int, i as int);
                assert(t@.take(i + 1).drop_last() =~= t@.take(i as int));
            }
            out.append(s.substring_char(start, i));
            out.append("\n  ");
            proof {
                assert(out@ =~= old(out)@ + indent(t@.take(i + 1)));
            }
            start = i + 1;
        }
        i = i + 1;
    }
    proof {
        lemma_indent_plain(t@, start as int, n as int);
        assert(t@.take(n as int) =~= t@);
    }
    out.append(s.substring_char(start, n));
    assert(out@ =~= old(out)@ + indent(t@));
}

/// Appends the indented `items[lo..]`, with a line break and two spaces between each two.
pub fn push_indented_lines(out: &mut String, items: &Vec<String>, lo: usize)
    requires
        lo <= items.len(),
    ensures
        final(out)@ == old(out)@ + join(indent_all(views(items@).skip(lo as int)), "\n  "@),
{
    let ghost xs = indent_all(views(items@).skip(lo as int));
    let mut i: usize = lo;
    assert(xs.take(0) =~= Seq::<Seq<char>>::empty());
    while i < items.len()
        invariant
            lo <= i <= items.len(),
            xs == indent_all(views(items@).skip(lo as int)),
            out@ == old(out)@ + join(xs.take(i - lo), "\n  "@),
        decreases items.len() - i,
    {
        proof {
            lemma_join_step(xs, "\n  "@, i - lo);
        }
        if i > lo {
            out.append("\n  ");
        }
        push_indented(out, &items[i]);
        proof {
            assert(xs[i - lo] == indent(items@[i as int]@));
            assert(out@ =~= old(out)@ + join(xs.take(i + 1 - lo), "\n  "@));
        }
        i = i + 1;
    }
    assert(xs.take(i - lo) =~= xs);
}

/// Appends `t`, `n` times over.
pub fn push_repeated(out: &mut String, t: &str, n: u64)
    ensures
        final(out)@ == old(out)@ + repeat(t@, n as nat),
{
    let mut i: u64 = 0;
    assert(old(out)@ + repeat(t@, 0) =~= old(out)@);
    while i < n
        invariant
            i <= n,
            out@ == old(out)@ + repeat(t@, i as nat),
        decreases n - i,
    {
        out.append(t);
        assert(out@ =~= old(out)@ + repeat(t@, (i + 1) as nat));
        i = i + 1;
    }
}

} // verus!
