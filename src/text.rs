//! Character-level helpers on strings: whitespace, trimming and the
//! `key=value` split of a shortcut line.

use vstd::prelude::*;

verus! {

/// Whitespace as `char::is_whitespace` and the regex class `\s` define it:
/// the characters with the Unicode `White_Space` property.
pub open spec fn is_space(c: char) -> bool {
    let u = c as u32;
    (0x09 <= u && u <= 0x0d) || u == 0x20 || u == 0x85 || u == 0xa0 || u == 0x1680
        || (0x2000 <= u && u <= 0x200a) || u == 0x2028 || u == 0x2029 || u == 0x202f
        || u == 0x205f || u == 0x3000
}

/// `s` without its leading whitespace.
pub open spec fn trim_start(s: Seq<char>) -> Seq<char>
    decreases s.len(),
{
    if s.len() > 0 && is_space(s[0]) {
        trim_start(s.drop_first())
    } else {
        s
    }
}

/// `s` without its trailing whitespace.
pub open spec fn trim_end(s: Seq<char>) -> Seq<char>
    decreases s.len(),
{
    if s.len() > 0 && is_space(s.last()) {
        trim_end(s.drop_last())
    } else {
        s
    }
}

/// `s` without surrounding whitespace, as `str::trim` gives it.
pub open spec fn trimmed(s: Seq<char>) -> Seq<char> {
    trim_end(trim_start(s))
}

/// The index of the first occurrence of `c` in `s`, if any.
pub open spec fn first_index_of(s: Seq<char>, c: char) -> Option<int>
    decreases s.len(),
{
    if s.len() == 0 {
        None
    } else if s[0] == c {
        Some(0)
    } else {
        match first_index_of(s.drop_first(), c) {
            Some(i) => Some(i + 1),
            None => None,
        }
    }
}

/// The field of a line: split at the first `=`, key and value trimmed.
pub open spec fn field_of(line: Seq<char>) -> Option<(Seq<char>, Seq<char>)> {
    match first_index_of(line, '=') {
        Some(i) => Some(
            (trimmed(line.subrange(0, i)), trimmed(line.subrange(i + 1, line.len() as int))),
        ),
        None => None,
    }
}

/// Whether `c` is whitespace.
pub fn is_space_char(c: char) -> (r: bool)
    ensures
        r == is_space(c),
{
    let u = c as u32;
    (0x09 <= u && u <= 0x0d) || u == 0x20 || u == 0x85 || u == 0xa0 || u == 0x1680 || (0x2000
        <= u && u <= 0x200a) || u == 0x2028 || u == 0x2029 || u == 0x202f || u == 0x205f || u
        == 0x3000
}

proof fn lemma_trim_start_skip(s: Seq<char>, i: int)
    requires
        0 <= i < s.len(),
        is_space(s[i]),
    ensures
        trim_start(s.subrange(i, s.len() as int)) == trim_start(s.subrange(i + 1, s.len() as int)),
{
    let t = s.subrange(i, s.len() as int);
    assert(t.drop_first() =~= s.subrange(i + 1, s.len() as int));
}

proof fn lemma_trim_end_skip(s: Seq<char>, j: int)
    requires
        0 < j <= s.len(),
        is_space(s[j - 1]),
    ensures
        trim_end(s.subrange(0, j)) == trim_end(s.subrange(0, j - 1)),
{
    let t = s.subrange(0, j);
    assert(t.drop_last() =~= s.subrange(0, j - 1));
}

/// The characters of `s` from `from` (inclusive) to `to` (exclusive).
pub fn substring(s: &str, from: usize, to: usize) -> (r: String)
    requires
        from <= to <= s@.len(),
    ensures
        r@ == s@.subrange(from as int, to as int),
{
    s.substring_char(from, to).to_string()
}

/// `s` without surrounding whitespace.
pub fn trim(s: &str) -> (r: String)
    ensures
        r@ == trimmed(s@),
{
    let n = s.unicode_len();
    let mut i: usize = 0;
    assert(s@.subrange(0, n as int) =~= s@);
    while i < n && is_space_char(s.get_char(i))
        invariant
            n == s@.len(),
            i <= n,
            trim_start(s@) == trim_start(s@.subrange(i as int, n as int)),
        decreases n - i,
    {
        proof {
            lemma_trim_start_skip(s@, i as int);
        }
        i = i + 1;
    }
    let ghost rest = s@.subrange(i as int, n as int);
    proof {
        if i < n {
            assert(rest[0] == s@[i as int]);
        }
    }
    assert(trim_start(s@) == rest);
    let mut j: usize = n;
    while j > i && is_space_char(s.get_char(j - 1))
        invariant
            n == s@.len(),
            i <= j <= n,
            rest == s@.subrange(i as int, n as int),
            trim_end(rest) == trim_end(s@.subrange(i as int, j as int)),
        decreases j,
    {
        proof {
            let t = s@.subrange(i as int, j as int);
            lemma_trim_end_skip(t, (j - i) as int);
            assert(t.subrange(0, (j - i) as int) =~= t);
            assert(t.subrange(0, (j - i - 1) as int) =~= s@.subrange(i as int, j - 1));
        }
        j = j - 1;
    }
    proof {
        let t = s@.subrange(i as int, j as int);
        if j > i {
            assert(t.last() == s@[j - 1]);
        }
    }
    substring(s, i, j)
}

/// Index of the first `c` in `s`, if any.
pub fn find_char(s: &str, c: char) -> (r: Option<usize>)
    ensures
        match r {
            Some(i) => i < s@.len() && first_index_of(s@, c) == Some(i as int),
            None => first_index_of(s@, c) is None,
        },
{
    let n = s.unicode_len();
    let mut i: usize = 0;
    while i < n
        invariant
            n == s@.len(),
            i <= n,
            forall|k: int| 0 <= k < i ==> s@[k] != c,
        decreases n - i,
    {
        if s.get_char(i) == c {
            proof {
                lemma_first_index(s@, c, i as int);
            }
            return Some(i);
        }
        i = i + 1;
    }
    proof {
        lemma_first_index_none(s@, c);
    }
    None
}

proof fn lemma_first_index(s: Seq<char>, c: char, i: int)
    requires
        0 <= i < s.len(),
        s[i] == c,
        forall|k: int| 0 <= k < i ==> s[k] != c,
    ensures
        first_index_of(s, c) == Some(i),
    decreases i,
{
    if i > 0 {
        lemma_first_index(s.drop_first(), c, i - 1);
    }
}

proof fn lemma_first_index_none(s: Seq<char>, c: char)
    requires
        forall|k: int| 0 <= k < s.len() ==> s[k] != c,
    ensures
        first_index_of(s, c) is None,
    decreases s.len(),
{
    if s.len() > 0 {
        lemma_first_index_none(s.drop_first(), c);
    }
}

/// Splits a line at its first `=` into a trimmed key and a trimmed value;
/// `None` for a line without `=`.
pub fn split_field(line: &str) -> (r: Option<(String, String)>)
    ensures
        match r {
            Some((k, v)) => field_of(line@) == Some((k@, v@)),
            None => field_of(line@) is None,
        },
{
    let n = line.unicode_len();
    match find_char(line, '=') {
        Some(i) => {
            let key = substring(line, 0, i);
            let value = substring(line, i + 1, n);
            let k = trim(key.as_str());
            let v = trim(value.as_str());
            Some((k, v))
        },
        None => None,
    }
}

/// `name` placed in the directory `dir`.
pub open spec fn join_path(dir: Seq<char>, name: Seq<char>) -> Seq<char> {
    if dir.len() == 0 || dir.last() == '/' {
        dir + name
    } else {
        dir + seq!['/'] + name
    }
}

/// The path of `name` in the directory `dir`.
pub fn join_path_exec(dir: &str, name: &str) -> (r: String)
    ensures
        r@ == join_path(dir@, name@),
{
    let n = dir.unicode_len();
    let mut r = dir.to_string();
    if n > 0 && dir.get_char(n - 1) != '/' {
        r.append("/");
        proof {
            reveal_strlit("/");
        }
    }
    r.append(name);
    r
}

} // verus!
