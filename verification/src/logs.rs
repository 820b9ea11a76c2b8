//! The Activity view's log tail: the newest `n` lines of the log file's text. Lines end at `\n`
//! or `\r\n`, and a final line ending is optional.

use vstd::prelude::*;

use crate::shell::texts;

verus! {

/// Where the first line of `s` ends: the index of its first `\n`, or its length.
pub open spec fn line_end(s: Seq<char>) -> nat
    decreases s.len(),
{
    if s.len() == 0 {
        0
    } else if s[0] == '\n' {
        0
    } else {
        1 + line_end(s.drop_first())
    }
}

/// A line that ended at `\n` loses the `\r` before it, if there is one.
pub open spec fn strip_cr(line: Seq<char>) -> Seq<char> {
    if line.len() > 0 && line.last() == '\r' {
        line.drop_last()
    } else {
        line
    }
}

/// The lines of `s`.
pub open spec fn split_lines(s: Seq<char>) -> Seq<Seq<char>>
    decreases s.len(),
{
    if s.len() == 0 {
        Seq::empty()
    } else {
        let k = line_end(s);
        if k >= s.len() {
            seq![s]
        } else {
            seq![strip_cr(s.subrange(0, k as int))] + split_lines(s.subrange(k as int + 1, s.len() as int))
        }
    }
}

/// The last `n` lines of `s`, oldest first.
pub open spec fn tail_lines(s: Seq<char>, n: nat) -> Seq<Seq<char>> {
    let all = split_lines(s);
    if all.len() > n {
        all.subrange(all.len() - n, all.len() as int)
    } else {
        all
    }
}

/// A line ends at the first `\n`, wherever that is.
proof fn lemma_line_end(t: Seq<char>, m: int)
    requires
        0 <= m <= t.len(),
        forall|j: int| 0 <= j < m ==> t[j] != '\n',
        m == t.len() || t[m] == '\n',
    ensures
        line_end(t) == m,
    decreases m,
{
    if m > 0 {
        let rest = t.drop_first();
        assert forall|j: int| 0 <= j < m - 1 implies rest[j] != '\n' by {
            assert(rest[j] == t[j + 1]);
        }
        if m < t.len() {
            assert(rest[m - 1] == t[m]);
        }
        lemma_line_end(rest, m - 1);
    }
}

/// The first line ends within the text, or at its end.
proof fn lemma_line_end_bound(s: Seq<char>)
    ensures
        line_end(s) <= s.len(),
        line_end(s) < s.len() ==> s[line_end(s) as int] == '\n',
    decreases s.len(),
{
    if s.len() > 0 && s[0] != '\n' {
        lemma_line_end_bound(s.drop_first());
        if line_end(s) < s.len() {
            assert(s.drop_first()[line_end(s.drop_first()) as int] == s[line_end(s) as int]);
        }
    }
}

/// Appending to a text moves the end of its first line only when the text holds no line break.
proof fn lemma_line_end_append(s: Seq<char>, x: Seq<char>)
    ensures
        line_end(s) < s.len() ==> line_end(s + x) == line_end(s),
        line_end(s) >= s.len() ==> line_end(s + x) == s.len() + line_end(x),
    decreases s.len(),
{
    if s.len() == 0 {
        assert(s + x =~= x);
    } else {
        assert((s + x)[0] == s[0]);
        if s[0] != '\n' {
            assert((s + x).drop_first() =~= s.drop_first() + x);
            lemma_line_end_append(s.drop_first(), x);
        }
    }
}

/// A final line ending is optional: a non-empty text that does not already end at a line break
/// has the same lines with `\r\n` after it, and with `\n` after it unless it ends in `\r`
/// (a bare `\r` at the very end stays part of the last line).
pub proof fn lemma_final_line_ending_is_optional(s: Seq<char>)
    requires
        s.len() > 0,
        s.last() != '\n',
    ensures
        split_lines(s + seq!['\r', '\n']) == split_lines(s),
        s.last() != '\r' ==> split_lines(s + seq!['\n']) == split_lines(s),
    decreases s.len(),
{
    lemma_line_end_bound(s);
    let k = line_end(s) as int;
    lemma_line_end_append(s, seq!['\r', '\n']);
    lemma_line_end_append(s, seq!['\n']);
    let crlf = s + seq!['\r', '\n'];
    let lf = s + seq!['\n'];
    if k < s.len() {
        let rest = s.subrange(k + 1, s.len() as int);
        assert(rest.len() > 0) by {
            if k + 1 == s.len() {
                assert(s.last() == s[k as int]);
            }
        }
        assert(rest.last() == s.last());
        lemma_final_line_ending_is_optional(rest);
        assert(crlf.subrange(0, k as int) =~= s.subrange(0, k as int));
        assert(crlf.subrange(k + 1, crlf.len() as int) =~= rest + seq!['\r', '\n']);
        assert(lf.subrange(0, k as int) =~= s.subrange(0, k as int));
        assert(lf.subrange(k + 1, lf.len() as int) =~= rest + seq!['\n']);
    } else {
        let n = s.len() as int;
        assert(line_end(seq!['\r', '\n']) == 1) by {
            assert(seq!['\r', '\n'].drop_first() =~= seq!['\n']);
        }
        assert(line_end(seq!['\n']) == 0);
        assert(crlf.subrange(0, n + 1) =~= s.push('\r'));
        assert(strip_cr(s.push('\r')) =~= s);
        assert(crlf.subrange(n + 2, crlf.len() as int) =~= Seq::<char>::empty());
        assert(line_end(crlf) == n + 1);
        assert(split_lines(Seq::<char>::empty()) =~= Seq::<Seq<char>>::empty());
        assert(split_lines(crlf) =~= seq![s]);
        assert(lf.subrange(0, n) =~= s);
        assert(lf.subrange(n + 1, lf.len() as int) =~= Seq::<char>::empty());
        if s.last() != '\r' {
            assert(strip_cr(s) == s);
            assert(split_lines(lf) =~= seq![s]);
        }
    }
}

/// The lines of `content`.
pub fn lines_of(content: &str) -> (r: Vec<String>)
    ensures
        texts(r@) == split_lines(content@),
{
    let n = content.unicode_len();
    let mut out: Vec<String> = Vec::new();
    let mut start: usize = 0;
    proof {
        assert(content@.subrange(0, n as int) =~= content@);
        assert(texts(out@) + split_lines(content@) =~= split_lines(content@));
    }
    while start < n
        invariant
            n == content@.len(),
            start <= n,
            texts(out@) + split_lines(content@.subrange(start as int, n as int)) == split_lines(content@),
        decreases n - start,
    {
        let ghost t = content@.subrange(start as int, n as int);
        let mut i: usize = start;
        while i < n && content.get_char(i) != '\n'
            invariant
                n == content@.len(),
                start <= i <= n,
                forall|j: int| start <= j < i ==> content@[j] != '\n',
            decreases n - i,
        {
            i = i + 1;
        }
        proof {
            assert forall|j: int| 0 <= j < i - start implies t[j] != '\n' by {
                assert(t[j] == content@[start + j]);
            }
            if i < n {
                assert(t[i - start] == content@[i as int]);
            }
            lemma_line_end(t, i - start);
        }
        let ghost before = out@;
        if i == n {
            out.push(String::from_str(content.substring_char(start, n)));
            proof {
                assert(split_lines(t) == seq![t]);
                assert(texts(out@) =~= texts(before) + seq![t]);
                assert(content@.subrange(n as int, n as int) =~= Seq::<char>::empty());
                assert(texts(out@) + Seq::<Seq<char>>::empty() =~= texts(out@));
            }
            start = n;
        } else {
            let mut end: usize = i;
            if end > start && content.get_char(end - 1) == '\r' {
                end = end - 1;
            }
            out.push(String::from_str(content.substring_char(start, end)));
            proof {
                let line = t.subrange(0, i - start);
                assert(line =~= content@.subrange(start as int, i as int));
                assert(content@.subrange(start as int, end as int) =~= strip_cr(line));
                assert(t.subrange(i - start + 1, t.len() as int) =~= content@.subrange(i + 1, n as int));
                assert(split_lines(t) == seq![strip_cr(line)] + split_lines(
                    content@.subrange(i + 1, n as int),
                ));
                assert(texts(out@) =~= texts(before) + seq![strip_cr(line)]);
                assert(texts(out@) + split_lines(content@.subrange(i + 1, n as int)) =~= texts(before)
                    + split_lines(t));
            }
            start = i + 1;
        }
    }
    proof {
        assert(content@.subrange(start as int, n as int) =~= Seq::<char>::empty());
        assert(texts(out@) + Seq::<Seq<char>>::empty() =~= texts(out@));
    }
    out
}

/// The newest `n` lines of `content`, oldest first.
pub fn last_lines(content: &str, n: usize) -> (r: Vec<String>)
    ensures
        texts(r@) == tail_lines(content@, n as nat),
{
    let all = lines_of(content);
    let len = all.len();
    let from: usize = if len > n { len - n } else { 0 };
    let mut out: Vec<String> = Vec::new();
    let mut i: usize = from;
    while i < len
        invariant
            len == all@.len(),
            from <= i <= len,
            texts(out@) == texts(all@).subrange(from as int, i as int),
        decreases len - i,
    {
        let ghost before = out@;
        out.push(all[i].clone());
        proof {
            assert(out@ == before.push(all@[i as int]));
            assert(texts(out@) =~= texts(before).push(all@[i as int]@));
            assert(texts(out@) =~= texts(all@).subrange(from as int, i + 1));
        }
        i = i + 1;
    }
    proof {
        if len <= n {
            assert(texts(all@).subrange(0, len as int) =~= texts(all@));
        }
    }
    out
}

} // verus!
