//! Line-oriented text primitives shared by the ICS scanners and the URL
//! helpers: prefix and suffix tests, splitting text into lines the way
//! `str::lines` does, and whitespace trimming.

use vstd::prelude::*;

verus! {

/// True when `p` is a prefix of `s`.
pub open spec fn has_prefix(s: Seq<char>, p: Seq<char>) -> bool {
    p.len() <= s.len() && s.subrange(0, p.len() as int) == p
}

/// True when `p` is a suffix of `s`.
pub open spec fn has_suffix(s: Seq<char>, p: Seq<char>) -> bool {
    p.len() <= s.len() && s.subrange(s.len() - p.len(), s.len() as int) == p
}

/// Prefix test on string slices, the building block of the line scanners.
pub fn str_has_prefix(s: &str, p: &str) -> (r: bool)
    ensures
        r == has_prefix(s@, p@),
{
    let s_len = s.unicode_len();
    let p_len = p.unicode_len();
    if p_len > s_len {
        return false;
    }
    let mut i: usize = 0;
    while i < p_len
        invariant
            i <= p_len <= s_len,
            s_len == s@.len(),
            p_len == p@.len(),
            forall|j: int| 0 <= j < i ==> s@[j] == p@[j],
        decreases p_len - i,
    {
        if s.get_char(i) != p.get_char(i) {
            assert(s@.subrange(0, p@.len() as int)[i as int] != p@[i as int]);
            return false;
        }
        i += 1;
    }
    assert(s@.subrange(0, p@.len() as int) =~= p@);
    true
}

/// Suffix test on string slices.
pub fn str_has_suffix(s: &str, p: &str) -> (r: bool)
    ensures
        r == has_suffix(s@, p@),
{
    let s_len = s.unicode_len();
    let p_len = p.unicode_len();
    if p_len > s_len {
        return false;
    }
    let off = s_len - p_len;
    let mut i: usize = 0;
    while i < p_len
        invariant
            i <= p_len <= s_len,
            off == s_len - p_len,
            s_len == s@.len(),
            p_len == p@.len(),
            forall|j: int| 0 <= j < i ==> s@[off + j] == p@[j],
        decreases p_len - i,
    {
        if s.get_char(off + i) != p.get_char(i) {
            assert(s@.subrange(s@.len() - p@.len(), s@.len() as int)[i as int] != p@[i as int]);
            return false;
        }
        i += 1;
    }
    assert(s@.subrange(s@.len() - p@.len(), s@.len() as int) =~= p@);
    true
}

/// Equality test on string slices.
pub fn str_eq(a: &str, b: &str) -> (r: bool)
    ensures
        r == (a@ == b@),
{
    let a_len = a.unicode_len();
    let b_len = b.unicode_len();
    if a_len != b_len {
        return false;
    }
    let r = str_has_prefix(a, b);
    proof {
        assert(a@.subrange(0, b@.len() as int) =~= a@);
    }
    r
}

/// A line with its terminating `"\r\n"` removed down to a bare `"\r"`:
/// the carriage return that preceded a line feed is not part of the line.
pub open spec fn chomp_cr(l: Seq<char>) -> Seq<char> {
    if l.len() > 0 && l.last() == '\r' {
        l.drop_last()
    } else {
        l
    }
}

/// The lines of `s` gathered left to right; `cur` holds the characters of
/// the line being read. Mirrors `str::lines`: lines are separated by
/// `'\n'`, a carriage return before the separator is dropped, and a final
/// fragment without a separator is a line of its own (kept verbatim),
/// unless it is empty.
pub open spec fn lines_acc(s: Seq<char>, cur: Seq<char>) -> Seq<Seq<char>>
    decreases s.len(),
{
    if s.len() == 0 {
        if cur.len() == 0 {
            seq![]
        } else {
            seq![cur]
        }
    } else if s[0] == '\n' {
        seq![chomp_cr(cur)] + lines_acc(s.skip(1), seq![])
    } else {
        lines_acc(s.skip(1), cur.push(s[0]))
    }
}

/// The lines of `s`, as `str::lines` yields them.
pub open spec fn spec_lines(s: Seq<char>) -> Seq<Seq<char>> {
    lines_acc(s, seq![])
}

/// The views of a vector of strings.
pub open spec fn views_of(v: Seq<String>) -> Seq<Seq<char>> {
    v.map_values(|s: String| s@)
}

/// Splits `s` into lines, exactly as `str::lines` would.
pub fn split_lines(s: &str) -> (lines: Vec<String>)
    ensures
        views_of(lines@) == spec_lines(s@),
{
    let len = s.unicode_len();
    let mut lines: Vec<String> = Vec::new();
    let mut start: usize = 0;
    let mut i: usize = 0;
    proof {
        assert(s@.skip(0) =~= s@);
        assert(s@.subrange(0, 0) =~= Seq::<char>::empty());
        assert(views_of(lines@) =~= Seq::<Seq<char>>::empty());
    }
    while i < len
        invariant
            start <= i <= len,
            len == s@.len(),
            views_of(lines@) + lines_acc(s@.skip(i as int), s@.subrange(start as int, i as int))
                == spec_lines(s@),
        decreases len - i,
    {
        let ghost cur = s@.subrange(start as int, i as int);
        let ghost prev_views = views_of(lines@);
        let c = s.get_char(i);
        proof {
            assert(s@.skip(i as int)[0] == c);
            assert(s@.skip(i as int).skip(1) =~= s@.skip(i + 1));
        }
        if c == '\n' {
            let end = if i > start && s.get_char(i - 1) == '\r' {
                i - 1
            } else {
                i
            };
            proof {
                if i > start && s@[i - 1] == '\r' {
                    assert(cur.len() > 0 && cur.last() == '\r');
                    assert(cur.drop_last() =~= s@.subrange(start as int, end as int));
                } else {
                    assert(cur =~= s@.subrange(start as int, end as int));
                }
            }
            let line = s.substring_char(start, end).to_owned();
            lines.push(line);
            start = i + 1;
            proof {
                assert(lines_acc(s@.skip(i as int), cur) == seq![chomp_cr(cur)] + lines_acc(
                    s@.skip(i + 1),
                    Seq::<char>::empty(),
                ));
                assert(views_of(lines@) =~= prev_views.push(chomp_cr(cur)));
                assert(s@.subrange(i + 1, i + 1) =~= Seq::<char>::empty());
                assert(views_of(lines@) + lines_acc(s@.skip(i + 1), s@.subrange(i + 1, i + 1))
                    =~= prev_views + lines_acc(s@.skip(i as int), cur));
            }
        } else {
            proof {
                assert(cur.push(c) =~= s@.subrange(start as int, i + 1));
                assert(lines_acc(s@.skip(i as int), cur) == lines_acc(
                    s@.skip(i + 1),
                    s@.subrange(start as int, i + 1),
                ));
            }
        }
        i += 1;
    }
    if start < len {
        let line = s.substring_char(start, len).to_owned();
        lines.push(line);
        proof {
            assert(s@.skip(len as int).len() == 0);
            assert(views_of(lines@) =~= views_of(lines@.drop_last()).push(
                s@.subrange(start as int, len as int),
            ));
            assert(views_of(lines@) =~= spec_lines(s@));
        }
    } else {
        proof {
            assert(s@.skip(len as int).len() == 0);
            assert(s@.subrange(start as int, len as int).len() == 0);
            assert(views_of(lines@) =~= spec_lines(s@));
        }
    }
    lines
}

/// The whitespace characters that are trimmed from an extracted UID.
pub open spec fn is_ics_space(c: char) -> bool {
    c == ' ' || c == '\t' || c == '\r' || c == '\n'
}

/// `s` with leading whitespace removed.
pub open spec fn trim_front(s: Seq<char>) -> Seq<char>
    decreases s.len(),
{
    if s.len() > 0 && is_ics_space(s[0]) {
        trim_front(s.skip(1))
    } else {
        s
    }
}

/// `s` with trailing whitespace removed.
pub open spec fn trim_back(s: Seq<char>) -> Seq<char>
    decreases s.len(),
{
    if s.len() > 0 && is_ics_space(s.last()) {
        trim_back(s.drop_last())
    } else {
        s
    }
}

/// `s` with whitespace removed from both ends.
pub open spec fn spec_trim(s: Seq<char>) -> Seq<char> {
    trim_back(trim_front(s))
}

fn is_space_char(c: char) -> (r: bool)
    ensures
        r == is_ics_space(c),
{
    c == ' ' || c == '\t' || c == '\r' || c == '\n'
}

/// Removes whitespace from both ends of `s`.
pub fn trim_str(s: &str) -> (r: String)
    ensures
        r@ == spec_trim(s@),
{
    let len = s.unicode_len();
    let mut a: usize = 0;
    proof {
        assert(s@.skip(0) =~= s@);
    }
    while a < len && is_space_char(s.get_char(a))
        invariant
            a <= len,
            len == s@.len(),
            trim_front(s@) == trim_front(s@.skip(a as int)),
        decreases len - a,
    {
        proof {
            assert(s@.skip(a as int)[0] == s@[a as int]);
            assert(s@.skip(a as int).skip(1) =~= s@.skip(a + 1));
        }
        a += 1;
    }
    proof {
        if a < len {
            assert(s@.skip(a as int)[0] == s@[a as int]);
        }
        assert(trim_front(s@) == s@.skip(a as int));
    }
    let mut b: usize = len;
    while b > a && is_space_char(s.get_char(b - 1))
        invariant
            a <= b <= len,
            len == s@.len(),
            trim_front(s@) == s@.skip(a as int),
            trim_back(s@.skip(a as int)) == trim_back(s@.subrange(a as int, b as int)),
        decreases b,
    {
        proof {
            let t = s@.subrange(a as int, b as int);
            assert(t.last() == s@[b - 1]);
            assert(t.drop_last() =~= s@.subrange(a as int, b - 1));
        }
        b -= 1;
    }
    proof {
        let t = s@.subrange(a as int, b as int);
        if b > a {
            assert(t.last() == s@[b - 1]);
        }
        assert(trim_back(t) == t);
        assert(s@.skip(a as int) =~= s@.subrange(a as int, len as int));
    }
    s.substring_char(a, b).to_owned()
}

/// A line with every leading repetition of `"UID:"` removed, the way
/// `str::trim_start_matches` strips a pattern.
pub open spec fn strip_uid(l: Seq<char>) -> Seq<char>
    decreases l.len(),
{
    if "UID:"@.len() > 0 && has_prefix(l, "UID:"@) {
        strip_uid(l.skip("UID:"@.len() as int))
    } else {
        l
    }
}

/// The UID carried by a `UID:`-prefixed line: the line with the prefix
/// stripped and whitespace trimmed.
pub open spec fn uid_of_line(l: Seq<char>) -> Seq<char> {
    spec_trim(strip_uid(l))
}

/// Extracts the UID from a `UID:`-prefixed line.
pub fn extract_uid(line: &str) -> (r: String)
    ensures
        r@ == uid_of_line(line@),
{
    let mut rest: &str = line;
    let mut len = rest.unicode_len();
    let mut go = str_has_prefix(rest, "UID:");
    while go
        invariant
            len == rest@.len(),
            go == has_prefix(rest@, "UID:"@),
            strip_uid(line@) == strip_uid(rest@),
        decreases len,
    {
        proof {
            reveal_strlit("UID:");
            assert(rest@.skip(4) =~= rest@.subrange(4, rest@.len() as int));
        }
        let ghost prev = rest@;
        rest = rest.substring_char(4, len);
        len = len - 4;
        proof {
            assert(strip_uid(prev) == strip_uid(rest@));
        }
        go = str_has_prefix(rest, "UID:");
    }
    proof {
        assert(strip_uid(rest@) == rest@);
    }
    trim_str(rest)
}

} // verus!
