use vstd::prelude::*;
use vstd::string::StringExecFns;
use vstd::string::StrSliceExecFns;

verus! {

/// The text split at every newline: the empty text is one empty segment,
/// a trailing newline opens a new empty segment, and any other character
/// extends the last segment.
pub open spec fn split_newlines(s: Seq<char>) -> Seq<Seq<char>>
    decreases s.len(),
{
    if s.len() == 0 {
        seq![Seq::<char>::empty()]
    } else {
        let prev = split_newlines(s.drop_last());
        if s.last() == '\n' {
            prev.push(Seq::<char>::empty())
        } else {
            prev.update(prev.len() - 1, prev.last().push(s.last()))
        }
    }
}

/// The lines of a file's content: its newline-separated segments, where a
/// final newline is a terminator, not a separator, and empty content has
/// no lines at all.
pub open spec fn lines_of(s: Seq<char>) -> Seq<Seq<char>> {
    if s.len() == 0 {
        Seq::<Seq<char>>::empty()
    } else if s.last() == '\n' {
        split_newlines(s).drop_last()
    } else {
        split_newlines(s)
    }
}

/// Splits file content into its lines.
pub fn split_text_lines(content: &str) -> (r: Vec<String>)
    ensures
        r.deep_view() == lines_of(content@),
{
    let n = content.unicode_len();
    if n == 0 {
        let r = Vec::<String>::new();
        proof {
            assert(r.deep_view() =~= lines_of(content@));
        }
        return r;
    }
    let mut segs: Vec<String> = Vec::new();
    segs.push(String::new());
    proof {
        assert(segs.deep_view() =~~= split_newlines(content@.take(0)));
    }
    let mut i: usize = 0;
    while i < n
        invariant
            n == content@.len(),
            i <= n,
            segs@.len() >= 1,
            segs.deep_view() == split_newlines(content@.take(i as int)),
        decreases n - i,
    {
        let c = content.get_char(i);
        if c == '\n' {
            segs.push(String::new());
        } else {
            let mut last = match segs.pop() {
                Some(t) => t,
                None => String::new(),
            };
            let g = crate::row::char_to_string(c);
            last.append(g.as_str());
            segs.push(last);
        }
        proof {
            assert(content@.take(i + 1).drop_last() =~= content@.take(i as int));
            assert(segs.deep_view() =~~= split_newlines(content@.take(i + 1)));
        }
        i += 1;
    }
    proof {
        assert(content@.take(n as int) =~= content@);
    }
    if content.get_char(n - 1) == '\n' {
        segs.pop();
        proof {
            assert(segs.deep_view() =~= split_newlines(content@).drop_last());
        }
    }
    segs
}

/// The on-disk form of a document's rows: each row's text, one newline
/// between rows, and no newline after the last row.
pub open spec fn join_rows(rows: Seq<Seq<Seq<char>>>) -> Seq<char>
    decreases rows.len(),
{
    if rows.len() == 0 {
        Seq::<char>::empty()
    } else if rows.len() == 1 {
        rows[0].flatten()
    } else {
        join_rows(rows.drop_last()) + seq!['\n'] + rows.last().flatten()
    }
}

/// Whether a text holds no newline character.
pub open spec fn newline_free(t: Seq<char>) -> bool {
    forall|j: int| 0 <= j < t.len() ==> t[j] != '\n'
}

/// A newline split always yields at least one segment.
proof fn lemma_split_newlines_nonempty(s: Seq<char>)
    ensures
        split_newlines(s).len() >= 1,
    decreases s.len(),
{
    if s.len() != 0 {
        lemma_split_newlines_nonempty(s.drop_last());
    }
}

/// A newline-free text is a single segment.
proof fn lemma_split_newline_free(t: Seq<char>)
    requires
        newline_free(t),
    ensures
        split_newlines(t) == seq![t],
    decreases t.len(),
{
    if t.len() == 0 {
        assert(split_newlines(t) =~~= seq![t]);
    } else {
        lemma_split_newline_free(t.drop_last());
        assert(t.drop_last().push(t.last()) =~= t);
        assert(split_newlines(t) =~~= seq![t]);
    }
}

/// Appending a newline-free text extends the last segment.
proof fn lemma_split_append_free(s: Seq<char>, t: Seq<char>)
    requires
        newline_free(t),
    ensures
        split_newlines(s + t) == split_newlines(s).update(
            split_newlines(s).len() - 1,
            split_newlines(s).last() + t,
        ),
    decreases t.len(),
{
    lemma_split_newlines_nonempty(s);
    if t.len() == 0 {
        assert(s + t =~= s);
        assert(split_newlines(s).update(
            split_newlines(s).len() - 1,
            split_newlines(s).last() + t,
        ) =~~= split_newlines(s));
    } else {
        lemma_split_append_free(s, t.drop_last());
        assert((s + t).drop_last() =~= s + t.drop_last());
        assert((s + t).last() == t.last());
        assert(split_newlines(s).last() + t.drop_last() + seq![t.last()] =~= split_newlines(s).last()
            + t);
        assert(split_newlines(s + t) =~~= split_newlines(s).update(
            split_newlines(s).len() - 1,
            split_newlines(s).last() + t,
        ));
    }
}

/// The joined rows split back into one segment per row, as long as no
/// row's text holds a newline of its own.
proof fn lemma_split_joined_rows(rows: Seq<Seq<Seq<char>>>)
    requires
        rows.len() > 0,
        forall|i: int| 0 <= i < rows.len() ==> newline_free(#[trigger] rows[i].flatten()),
    ensures
        split_newlines(join_rows(rows)) == rows.map_values(|r: Seq<Seq<char>>| r.flatten()),
    decreases rows.len(),
{
    let texts = rows.map_values(|r: Seq<Seq<char>>| r.flatten());
    if rows.len() == 1 {
        lemma_split_newline_free(rows[0].flatten());
        assert(split_newlines(join_rows(rows)) =~~= texts);
    } else {
        let a = join_rows(rows.drop_last());
        let b = rows.last().flatten();
        lemma_split_joined_rows(rows.drop_last());
        lemma_split_newlines_nonempty(a);
        assert((a + seq!['\n']).drop_last() =~= a);
        assert(split_newlines(a + seq!['\n']) =~~= split_newlines(a).push(Seq::<char>::empty()));
        lemma_split_append_free(a + seq!['\n'], b);
        assert(a + seq!['\n'] + b =~= (a + seq!['\n']) + b);
        assert(Seq::<char>::empty() + b =~= b);
        assert(split_newlines(join_rows(rows)) =~~= split_newlines(a).push(b));
        assert(rows.drop_last().map_values(|r: Seq<Seq<char>>| r.flatten()).push(b) =~~= texts);
    }
}

/// The save-then-open round trip at the level of the file format: as long
/// as no row's text holds a newline and the last row is not empty (an
/// empty last row would read back as a final-newline terminator, which is
/// not a separator), the lines of a document's on-disk form are exactly
/// its rows' texts.
pub proof fn lemma_join_rows_round_trip(rows: Seq<Seq<Seq<char>>>)
    requires
        forall|i: int| 0 <= i < rows.len() ==> newline_free(#[trigger] rows[i].flatten()),
        rows.len() > 0 ==> rows.last().flatten().len() > 0,
    ensures
        lines_of(join_rows(rows)) == rows.map_values(|r: Seq<Seq<char>>| r.flatten()),
{
    let texts = rows.map_values(|r: Seq<Seq<char>>| r.flatten());
    if rows.len() == 0 {
        assert(lines_of(join_rows(rows)) =~= texts);
    } else {
        let b = rows.last().flatten();
        if rows.len() == 1 {
            assert(join_rows(rows) == b);
        } else {
            assert(join_rows(rows).last() == b.last());
        }
        assert(join_rows(rows).len() > 0);
        assert(join_rows(rows).last() != '\n');
        lemma_split_joined_rows(rows);
    }
}

/// The decimal digit `d` as a character.
pub open spec fn digit_char(d: int) -> char {
    if d == 0 {
        '0'
    } else if d == 1 {
        '1'
    } else if d == 2 {
        '2'
    } else if d == 3 {
        '3'
    } else if d == 4 {
        '4'
    } else if d == 5 {
        '5'
    } else if d == 6 {
        '6'
    } else if d == 7 {
        '7'
    } else if d == 8 {
        '8'
    } else {
        '9'
    }
}

/// The decimal notation of `n`: its digits, most significant first, with
/// no leading zero but for `n` itself being zero.
pub open spec fn dec_of(n: int) -> Seq<char>
    decreases n,
{
    if n < 10 {
        seq![digit_char(n)]
    } else {
        dec_of(n / 10).push(digit_char(n % 10))
    }
}

fn digit_to_char(d: usize) -> (r: char)
    requires
        d < 10,
    ensures
        r == digit_char(d as int),
{
    match d {
        0 => '0',
        1 => '1',
        2 => '2',
        3 => '3',
        4 => '4',
        5 => '5',
        6 => '6',
        7 => '7',
        8 => '8',
        _ => '9',
    }
}

/// Writes `n` in decimal.
pub fn usize_to_string(n: usize) -> (r: String)
    ensures
        r@ == dec_of(n as int),
{
    let mut digits: Vec<char> = Vec::new();
    let mut m: usize = n;
    if m == 0 {
        digits.push('0');
        proof {
            assert(digits@.reverse() =~= dec_of(n as int));
        }
    }
    proof {
        assert(m > 0 ==> dec_of(n as int) =~= dec_of(m as int) + digits@.reverse());
    }
    while m > 0
        invariant
            m > 0 ==> dec_of(n as int) == dec_of(m as int) + digits@.reverse(),
            m == 0 ==> dec_of(n as int) == digits@.reverse(),
        decreases m,
    {
        let d = digit_to_char(m % 10);
        let ghost prevd = digits@;
        digits.push(d);
        proof {
            assert(digits@.reverse() =~= seq![d] + prevd.reverse());
        }
        m = m / 10;
        proof {
            if m > 0 {
                assert(dec_of(n as int) =~= dec_of(m as int) + digits@.reverse());
            } else {
                assert(dec_of(n as int) =~= digits@.reverse());
            }
        }
    }
    let k = digits.len();
    let mut s = String::new();
    let mut j: usize = k;
    proof {
        assert(s@ =~= digits@.reverse().take(0));
    }
    while j > 0
        invariant
            j <= k,
            k == digits@.len(),
            s@ == digits@.reverse().take(k - j),
        decreases j,
    {
        j -= 1;
        let g = crate::row::char_to_string(digits[j]);
        s.append(g.as_str());
        proof {
            assert(s@ =~= digits@.reverse().take(k - j));
        }
    }
    proof {
        assert(digits@.reverse().take(k as int) =~= digits@.reverse());
    }
    s
}

/// The suffix after the last dot, or the whole text when it has no dot.
pub open spec fn after_last_dot(s: Seq<char>) -> Seq<char>
    decreases s.len(),
{
    if s.len() == 0 {
        s
    } else if s.last() == '.' {
        Seq::<char>::empty()
    } else {
        after_last_dot(s.drop_last()).push(s.last())
    }
}

/// The extension a file name carries: what follows its last dot, or the
/// whole name when it has none.
pub fn file_extension(name: &str) -> (r: String)
    ensures
        r@ == after_last_dot(name@),
{
    let n = name.unicode_len();
    let mut start: usize = 0;
    let mut i: usize = 0;
    proof {
        assert(after_last_dot(name@.take(0)) =~= name@.subrange(0, 0));
    }
    while i < n
        invariant
            n == name@.len(),
            i <= n,
            start <= i,
            after_last_dot(name@.take(i as int)) == name@.subrange(start as int, i as int),
        decreases n - i,
    {
        let c = name.get_char(i);
        proof {
            assert(name@.take(i + 1).drop_last() =~= name@.take(i as int));
        }
        if c == '.' {
            start = i + 1;
            proof {
                assert(after_last_dot(name@.take(i + 1)) =~= name@.subrange(
                    start as int,
                    i + 1,
                ));
            }
        } else {
            proof {
                assert(after_last_dot(name@.take(i + 1)) =~= name@.subrange(
                    start as int,
                    i + 1,
                ));
            }
        }
        i += 1;
    }
    proof {
        assert(name@.take(n as int) =~= name@);
    }
    let sub = name.substring_char(start, n);
    String::from_str(sub)
}

} // verus!
