//! Verified string editing primitives: inserting and removing a single
//! character at a character offset, splitting text into lines, and joining
//! lines back into file content.

use vstd::prelude::*;
use vstd::string::*;

verus! {

/// Relies on std's `String::push`: appends the given character to the end of
/// the string.
pub assume_specification[ String::push ](s: &mut String, ch: char)
    ensures
        final(s)@ == old(s)@.push(ch),
;

/// Insert character `c` at character offset `x` of `line`.
pub fn insert_char(line: &str, x: usize, c: char) -> (r: String)
    requires
        x <= line@.len(),
    ensures
        r@ == line@.take(x as int) + seq![c] + line@.skip(x as int),
{
    let n = line.unicode_len();
    let head = line.substring_char(0, x);
    let tail = line.substring_char(x, n);
    let mut r = String::from_str(head);
    r.push(c);
    r.append(tail);
    proof {
        assert(r@ =~= line@.take(x as int) + seq![c] + line@.skip(x as int));
    }
    r
}

/// Remove the character at character offset `x` of `line`.
pub fn remove_char(line: &str, x: usize) -> (r: String)
    requires
        x < line@.len(),
    ensures
        r@ == line@.take(x as int) + line@.skip(x as int + 1),
{
    let n = line.unicode_len();
    let head = line.substring_char(0, x);
    let tail = line.substring_char(x + 1, n);
    let mut r = String::from_str(head);
    r.append(tail);
    proof {
        assert(r@ =~= line@.take(x as int) + line@.skip(x as int + 1));
    }
    r
}

/// Holds when no character of `s` is a newline.
pub open spec fn no_newline(s: Seq<char>) -> bool {
    forall|j: int| 0 <= j < s.len() ==> s[j] != '\n'
}

/// The index of the first newline in `s`, or `s.len()` if there is none.
pub open spec fn nl_index(s: Seq<char>) -> int
    decreases s.len(),
{
    if s.len() == 0 {
        0
    } else if s[0] == '\n' {
        0
    } else {
        1 + nl_index(s.drop_first())
    }
}

/// Split `s` on every newline, keeping empty segments: the result always has
/// one more segment than `s` has newlines.
pub open spec fn split_full(s: Seq<char>) -> Seq<Seq<char>>
    decreases s.len(),
{
    let j = nl_index(s);
    if 0 <= j < s.len() {
        seq![s.take(j)] + split_full(s.skip(j + 1))
    } else {
        seq![s]
    }
}

/// The lines of file content `s`: split on newlines, except that a final
/// newline does not open an extra empty line, and empty content has no lines.
pub open spec fn lines_of(s: Seq<char>) -> Seq<Seq<char>> {
    if s.len() == 0 {
        Seq::empty()
    } else if s.last() == '\n' {
        split_full(s.drop_last())
    } else {
        split_full(s)
    }
}

/// The file content of lines `l`: the lines joined by single newlines, with
/// no newline after the last line.
pub open spec fn join_of(l: Seq<Seq<char>>) -> Seq<char>
    decreases l.len(),
{
    if l.len() == 0 {
        Seq::empty()
    } else if l.len() == 1 {
        l[0]
    } else {
        l[0] + seq!['\n'] + join_of(l.drop_first())
    }
}

proof fn lemma_nl_index(s: Seq<char>)
    ensures
        0 <= nl_index(s) <= s.len(),
        forall|i: int| 0 <= i < nl_index(s) ==> s[i] != '\n',
        nl_index(s) < s.len() ==> s[nl_index(s)] == '\n',
    decreases s.len(),
{
    if s.len() == 0 {
    } else if s[0] == '\n' {
    } else {
        let t = s.drop_first();
        lemma_nl_index(t);
        assert forall|i: int| 1 <= i < nl_index(s) implies s[i] != '\n' by {
            assert(t[i - 1] == s[i]);
            assert(t[i - 1] != '\n');
        }
    }
}

proof fn lemma_nl_index_at(s: Seq<char>, j: int)
    requires
        0 <= j <= s.len(),
        forall|i: int| 0 <= i < j ==> s[i] != '\n',
        j < s.len() ==> s[j] == '\n',
    ensures
        nl_index(s) == j,
    decreases s.len(),
{
    if s.len() == 0 {
    } else if j == 0 {
    } else {
        assert(s[0] != '\n');
        let t = s.drop_first();
        assert(forall|i: int| 0 <= i < j - 1 ==> t[i] == s[i + 1] && t[i] != '\n');
        lemma_nl_index_at(t, j - 1);
    }
}

/// Unfolds one step of `split_full` at a known first newline position.
proof fn lemma_split_full_step(s: Seq<char>, j: int)
    requires
        0 <= j < s.len(),
        forall|i: int| 0 <= i < j ==> s[i] != '\n',
        s[j] == '\n',
    ensures
        split_full(s) == seq![s.take(j)] + split_full(s.skip(j + 1)),
{
    lemma_nl_index_at(s, j);
}

proof fn lemma_split_full_no_nl(s: Seq<char>)
    requires
        no_newline(s),
    ensures
        split_full(s) == seq![s],
{
    lemma_nl_index_at(s, s.len() as int);
}

/// Split file content into lines, as `lines_of` describes: every newline ends
/// a line, a final newline opens no extra empty line, and empty content has
/// no lines.
pub fn split_lines(content: &str) -> (r: Vec<String>)
    ensures
        r.deep_view() == lines_of(content@),
{
    let n = content.unicode_len();
    let mut lines: Vec<String> = Vec::new();
    let mut start: usize = 0;
    let mut i: usize = 0;
    proof {
        assert(lines.deep_view() =~= Seq::<Seq<char>>::empty());
        assert(content@.skip(0) =~= content@);
    }
    while i < n
        invariant
            start <= i <= n,
            n == content@.len(),
            forall|k: int| start <= k < i ==> content@[k] != '\n',
            split_full(content@) == lines.deep_view() + split_full(
                content@.skip(start as int),
            ),
            start == 0 ==> lines.deep_view() == Seq::<Seq<char>>::empty(),
            start > 0 ==> content@[start - 1] == '\n',
        decreases n - i,
    {
        if content.get_char(i) == '\n' {
            let seg = content.substring_char(start, i);
            let ghost prev = lines.deep_view();
            lines.push(String::from_str(seg));
            proof {
                let t = content@.skip(start as int);
                let j = i - start;
                assert(forall|k: int| 0 <= k < j ==> t[k] == content@[k + start] && t[k]
                    != '\n');
                assert(t[j] == '\n');
                lemma_split_full_step(t, j);
                assert(t.take(j) =~= seg@);
                assert(t.skip(j + 1) =~= content@.skip(i + 1));
                assert(lines.deep_view() =~= prev.push(seg@));
                assert(split_full(content@) == lines.deep_view() + split_full(
                    content@.skip(i + 1),
                ));
            }
            start = i + 1;
        }
        i += 1;
    }
    if start < n {
        let seg = content.substring_char(start, n);
        let ghost prev = lines.deep_view();
        lines.push(String::from_str(seg));
        proof {
            let t = content@.skip(start as int);
            assert(forall|k: int| 0 <= k < t.len() ==> t[k] == content@[k + start] && t[k]
                != '\n');
            lemma_split_full_no_nl(t);
            assert(t =~= seg@);
            assert(lines.deep_view() =~= prev.push(seg@));
            assert(content@.last() != '\n');
            assert(split_full(content@) =~= lines.deep_view());
        }
    } else {
        proof {
            if n == 0 {
                assert(lines.deep_view() =~= lines_of(content@));
            } else {
                assert(content@.last() == '\n');
                let t = content@.drop_last();
                assert(t.push('\n') =~= content@);
                lemma_split_full_push_nl(t);
                assert(content@.skip(start as int) =~= Seq::<char>::empty());
                assert(split_full(Seq::<char>::empty()) == seq![Seq::<char>::empty()]);
                assert(split_full(content@) == lines.deep_view() + seq![
                    Seq::<char>::empty(),
                ]);
                assert(split_full(content@) == split_full(t).push(Seq::<char>::empty()));
                assert(split_full(t) =~= lines.deep_view()) by {
                    assert(split_full(content@).drop_last() =~= split_full(t));
                    assert(split_full(content@).drop_last() =~= lines.deep_view());
                }
            }
        }
    }
    lines
}

/// Join lines into file content, as `join_of` describes: a single newline
/// between lines and none after the last.
pub fn join_lines(lines: &Vec<String>) -> (r: String)
    ensures
        r@ == join_of(lines.deep_view()),
{
    let ghost dv = lines.deep_view();
    let mut r = String::new();
    let mut i: usize = 0;
    proof {
        reveal_strlit("\n");
        assert("\n"@ =~= seq!['\n']);
    }
    while i < lines.len()
        invariant
            i <= lines.len(),
            dv == lines.deep_view(),
            r@ == join_of(dv.take(i as int)),
            "\n"@ == seq!['\n'],
        decreases lines.len() - i,
    {
        if i > 0 {
            r.append("\n");
        }
        r.append(lines[i].as_str());
        proof {
            lemma_join_of_push(dv.take(i as int), dv[i as int]);
            assert(dv.take(i + 1) =~= dv.take(i as int).push(dv[i as int]));
        }
        i += 1;
    }
    proof {
        assert(dv.take(lines.len() as int) =~= dv);
    }
    r
}

/// Appending a newline to content appends one empty line to its full split.
proof fn lemma_split_full_push_nl(t: Seq<char>)
    ensures
        split_full(t.push('\n')) == split_full(t).push(Seq::<char>::empty()),
    decreases t.len(),
{
    let s = t.push('\n');
    lemma_nl_index(t);
    let j = nl_index(t);
    if j == t.len() {
        assert(forall|i: int| 0 <= i < j ==> s[i] == t[i] && s[i] != '\n');
        lemma_nl_index_at(s, j);
        assert(s.take(j) =~= t);
        assert(s.skip(j + 1) =~= Seq::<char>::empty());
        assert(split_full(Seq::<char>::empty()) == seq![Seq::<char>::empty()]);
        assert(split_full(s) == seq![t] + seq![Seq::<char>::empty()]);
        assert(split_full(t) == seq![t]);
        assert(split_full(s) =~= split_full(t).push(Seq::<char>::empty()));
    } else {
        assert(forall|i: int| 0 <= i < j ==> s[i] == t[i] && s[i] != '\n');
        lemma_nl_index_at(s, j);
        assert(s.take(j) =~= t.take(j));
        assert(s.skip(j + 1) =~= t.skip(j + 1).push('\n'));
        lemma_split_full_push_nl(t.skip(j + 1));
        assert(split_full(s) =~= split_full(t).push(Seq::<char>::empty()));
    }
}

/// Joining one more line appends a newline and that line, except at the front.
proof fn lemma_join_of_push(l: Seq<Seq<char>>, v: Seq<char>)
    ensures
        join_of(l.push(v)) == if l.len() == 0 {
            v
        } else {
            join_of(l) + seq!['\n'] + v
        },
    decreases l.len(),
{
    let p = l.push(v);
    if l.len() == 0 {
        assert(p[0] == v);
    } else if l.len() == 1 {
        assert(p.drop_first() =~= seq![v]);
        assert(join_of(p.drop_first()) == v);
    } else {
        assert(p.drop_first() =~= l.drop_first().push(v));
        lemma_join_of_push(l.drop_first(), v);
        assert(join_of(p) =~= join_of(l) + seq!['\n'] + v);
    }
}

/// A join ends in the last character of its last line, when that line is
/// non-empty.
proof fn lemma_join_last(l: Seq<Seq<char>>)
    requires
        l.len() >= 1,
        l.last().len() > 0,
    ensures
        join_of(l).len() > 0,
        join_of(l).last() == l.last().last(),
    decreases l.len(),
{
    if l.len() == 1 {
    } else {
        lemma_join_last(l.drop_first());
        assert(l.drop_first().last() == l.last());
    }
}

/// Splitting a join of newline-free lines on newlines recovers the lines.
proof fn lemma_split_full_join(l: Seq<Seq<char>>)
    requires
        l.len() >= 1,
        forall|i: int| 0 <= i < l.len() ==> no_newline(#[trigger] l[i]),
    ensures
        split_full(join_of(l)) == l,
    decreases l.len(),
{
    let s = join_of(l);
    if l.len() == 1 {
        assert(no_newline(l[0]));
        lemma_split_full_no_nl(s);
        assert(split_full(s) =~= l);
    } else {
        let rest = l.drop_first();
        let j = l[0].len() as int;
        assert(forall|i: int| 0 <= i < j ==> s[i] == l[0][i] && s[i] != '\n');
        assert(s[j] == '\n');
        lemma_split_full_step(s, j);
        assert(s.take(j) =~= l[0]);
        assert(s.skip(j + 1) =~= join_of(rest));
        assert(forall|i: int| 0 <= i < rest.len() ==> no_newline(#[trigger] rest[i]));
        lemma_split_full_join(rest);
        assert(split_full(s) =~= l);
    }
}

/// Saving a document whose lines are newline-free, the last of them
/// non-empty, and loading the saved content yields the same lines.
pub proof fn lemma_save_load_round_trip(l: Seq<Seq<char>>)
    requires
        l.len() >= 1,
        forall|i: int| 0 <= i < l.len() ==> no_newline(#[trigger] l[i]),
        l.last().len() > 0,
    ensures
        lines_of(join_of(l)) == l,
{
    lemma_join_last(l);
    lemma_split_full_join(l);
}

/// Loading saved content with one extra trailing newline also yields the
/// saved lines: the trailing newline opens no extra line.
pub proof fn lemma_save_load_round_trip_trailing_newline(l: Seq<Seq<char>>)
    requires
        l.len() >= 1,
        forall|i: int| 0 <= i < l.len() ==> no_newline(#[trigger] l[i]),
    ensures
        lines_of(join_of(l).push('\n')) == l,
{
    let s = join_of(l).push('\n');
    assert(s.last() == '\n');
    assert(s.drop_last() =~= join_of(l));
    lemma_split_full_join(l);
}

/// `s` with every newline character removed, in order.
pub open spec fn strip_nl(s: Seq<char>) -> Seq<char>
    decreases s.len(),
{
    if s.len() == 0 {
        Seq::empty()
    } else if s[0] == '\n' {
        strip_nl(s.drop_first())
    } else {
        seq![s[0]] + strip_nl(s.drop_first())
    }
}

proof fn lemma_strip_nl_push(t: Seq<char>, c: char)
    ensures
        strip_nl(t.push(c)) == if c == '\n' {
            strip_nl(t)
        } else {
            strip_nl(t).push(c)
        },
    decreases t.len(),
{
    let p = t.push(c);
    if t.len() == 0 {
        assert(p.drop_first() =~= Seq::<char>::empty());
        assert(strip_nl(Seq::<char>::empty()) == Seq::<char>::empty());
        assert(t =~= Seq::<char>::empty());
        if c != '\n' {
            assert(strip_nl(p) =~= strip_nl(t).push(c));
        }
    } else {
        assert(p[0] == t[0]);
        assert(p.drop_first() =~= t.drop_first().push(c));
        lemma_strip_nl_push(t.drop_first(), c);
        if c != '\n' {
            assert(strip_nl(p) =~= strip_nl(t).push(c));
        }
    }
}

/// Copy `line` with every newline character removed.
pub fn strip_newlines(line: &str) -> (r: String)
    ensures
        r@ == strip_nl(line@),
{
    let n = line.unicode_len();
    let mut r = String::new();
    let mut i: usize = 0;
    while i < n
        invariant
            i <= n,
            n == line@.len(),
            r@ == strip_nl(line@.take(i as int)),
        decreases n - i,
    {
        let c = line.get_char(i);
        if c != '\n' {
            r.push(c);
        }
        proof {
            lemma_strip_nl_push(line@.take(i as int), line@[i as int]);
            assert(line@.take(i + 1) =~= line@.take(i as int).push(line@[i as int]));
        }
        i += 1;
    }
    proof {
        assert(line@.take(n as int) =~= line@);
    }
    r
}

/// The decimal digit character for `d`.
pub open spec fn dec_digit(d: int) -> char {
    if d == 0 {
        '0'
    } else if d == 1 {
        '1'
    } else if d == 2 {
        '2'
    } else if d == 3 {
        '3'
    } else if d == 4 {
        '4'
    } else if d == 5 {
        '5'
    } else if d == 6 {
        '6'
    } else if d == 7 {
        '7'
    } else if d == 8 {
        '8'
    } else {
        '9'
    }
}

/// The decimal representation of `n`, most significant digit first, with no
/// leading zeros (a single `'0'` for zero).
pub open spec fn dec_rep(n: int) -> Seq<char>
    decreases n,
{
    if n < 10 {
        seq![dec_digit(n)]
    } else {
        dec_rep(n / 10).push(dec_digit(n % 10))
    }
}

fn digit_char(d: usize) -> (c: char)
    requires
        d < 10,
    ensures
        c == dec_digit(d as int),
{
    match d {
        0 => '0',
        1 => '1',
        2 => '2',
        3 => '3',
        4 => '4',
        5 => '5',
        6 => '6',
        7 => '7',
        8 => '8',
        _ => '9',
    }
}

/// Format `n` in decimal.
pub fn dec_str(n: usize) -> (r: String)
    ensures
        r@ == dec_rep(n as int),
    decreases n,
{
    if n < 10 {
        let mut r = String::new();
        r.push(digit_char(n));
        proof {
            assert(r@ =~= seq![dec_digit(n as int)]);
        }
        r
    } else {
        let mut r = dec_str(n / 10);
        r.push(digit_char(n % 10));
        r
    }
}

/// Inserting `c` at offset `x` of `s` yields a sequence one longer, with `c`
/// at `x`, the characters before `x` unchanged, and those from `x` on shifted
/// right by one.
pub proof fn lemma_insert_exact(s: Seq<char>, x: int, c: char)
    requires
        0 <= x <= s.len(),
    ensures
        (s.take(x) + seq![c] + s.skip(x)).len() == s.len() + 1,
        (s.take(x) + seq![c] + s.skip(x))[x] == c,
        forall|i: int| 0 <= i < x ==> (s.take(x) + seq![c] + s.skip(x))[i] == s[i],
        forall|i: int| x <= i < s.len() ==> (s.take(x) + seq![c] + s.skip(x))[i + 1] == s[i],
{
}

} // verus!
