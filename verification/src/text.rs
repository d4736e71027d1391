//! Helpers on character sequences shared by the other modules.

use vstd::prelude::*;

verus! {

/// The views of a list of strings, in order.
pub open spec fn views(list: Seq<String>) -> Seq<Seq<char>> {
    Seq::new(list.len(), |i: int| list[i]@)
}

/// The index of the last `.` in `s`, or -1 where it holds none.
pub open spec fn last_dot(s: Seq<char>) -> int
    decreases s.len(),
{
    if s.len() == 0 {
        -1
    } else if s.last() == '.' {
        s.len() - 1
    } else {
        last_dot(s.drop_last())
    }
}

/// `last_dot` is the greatest index that holds a `.`.
proof fn lemma_last_dot(s: Seq<char>)
    ensures
        -1 <= last_dot(s) < s.len(),
        last_dot(s) >= 0 ==> s[last_dot(s)] == '.',
        forall|j: int| last_dot(s) < j < s.len() ==> s[j] != '.',
    decreases s.len(),
{
    if s.len() > 0 && s.last() != '.' {
        lemma_last_dot(s.drop_last());
        assert forall|j: int| last_dot(s) < j < s.len() implies s[j] != '.' by {
            if j < s.len() - 1 {
                assert(s.drop_last()[j] == s[j]);
            }
        }
    }
}

/// An index that holds a `.` with none behind it is `last_dot`.
proof fn lemma_last_dot_is(s: Seq<char>, k: int)
    requires
        -1 <= k < s.len(),
        k >= 0 ==> s[k] == '.',
        forall|j: int| k < j < s.len() ==> s[j] != '.',
    ensures
        last_dot(s) == k,
{
    lemma_last_dot(s);
}

/// The extension of a file name: what follows its last `.`, provided that
/// the dot is not the name's first character and the name is not `..`.
pub open spec fn extension_of(name: Seq<char>) -> Option<Seq<char>> {
    if name == seq!['.', '.'] || last_dot(name) <= 0 {
        None
    } else {
        Some(name.subrange(last_dot(name) + 1, name.len() as int))
    }
}

/// Computes `extension_of`.
pub fn extension(name: &str) -> (ext: Option<String>)
    ensures
        ext is Some == extension_of(name@) is Some,
        ext is Some ==> ext->0@ == extension_of(name@)->0,
{
    let n = name.unicode_len();
    let mut i: usize = n;
    while i > 0 && name.get_char(i - 1) != '.'
        invariant
            n == name@.len(),
            i <= n,
            forall|j: int| i <= j < n ==> name@[j] != '.',
        decreases i,
    {
        i -= 1;
    }
    proof {
        lemma_last_dot_is(name@, i - 1);
    }
    if i <= 1 {
        return None;
    }
    if n == 2 && name.get_char(0) == '.' {
        assert(name@ =~= seq!['.', '.']);
        return None;
    }
    assert(name@ != seq!['.', '.']) by {
        if name@ == seq!['.', '.'] {
            assert(name@.len() == 2);
            assert(name@[0] == '.');
        }
    }
    Some(String::from_str(name.substring_char(i, n)))
}

/// Whether `list` holds a string equal to `s`.
pub fn contains_string(list: &Vec<String>, s: &String) -> (found: bool)
    ensures
        found == views(list@).contains(s@),
{
    let mut i: usize = 0;
    while i < list.len()
        invariant
            i <= list.len(),
            forall|j: int| 0 <= j < i ==> views(list@)[j] != s@,
        decreases list.len() - i,
    {
        if list[i] == *s {
            assert(views(list@)[i as int] == s@);
            return true;
        }
        i += 1;
    }
    false
}

/// A copy of a list of strings.
pub fn copy_strings(list: &Vec<String>) -> (copy: Vec<String>)
    ensures
        views(copy@) == views(list@),
{
    let mut copy: Vec<String> = Vec::new();
    let mut i: usize = 0;
    while i < list.len()
        invariant
            i <= list.len(),
            copy@.len() == i,
            forall|j: int| 0 <= j < i ==> copy@[j]@ == list@[j]@,
        decreases list.len() - i,
    {
        copy.push(list[i].clone());
        i += 1;
    }
    assert(views(copy@) =~= views(list@));
    copy
}

/// What `str::to_lowercase` gives for a string that holds `s`.
pub uninterp spec fn lowercase(s: Seq<char>) -> Seq<char>;

/// Each name of `names` in lowercase, in order.
pub open spec fn folded(names: Seq<Seq<char>>) -> Seq<Seq<char>> {
    Seq::new(names.len(), |i: int| lowercase(names[i]))
}

/// Calls `str::to_lowercase`, which returns the lowercase equivalent of a
/// string slice as a new `String`. The mapping is Unicode's and depends on
/// the characters alone, so the result is only given a name here.
#[verifier::external_body]
pub(crate) fn to_lowercase(s: &str) -> (lower: String)
    ensures
        lower@ == lowercase(s@),
{
    s.to_lowercase()
}

/// What `char::is_whitespace` gives for `c`: whether the character has
/// Unicode's `White_Space` property.
pub uninterp spec fn whitespace(c: char) -> bool;

/// How many whitespace characters `s` begins with.
pub open spec fn leading_whitespace(s: Seq<char>) -> nat
    decreases s.len(),
{
    if s.len() == 0 || !whitespace(s[0]) {
        0
    } else {
        1 + leading_whitespace(s.drop_first())
    }
}

/// How many whitespace characters `s` ends with.
pub open spec fn trailing_whitespace(s: Seq<char>) -> nat
    decreases s.len(),
{
    if s.len() == 0 || !whitespace(s.last()) {
        0
    } else {
        1 + trailing_whitespace(s.drop_last())
    }
}

/// `s` without the whitespace that it begins and ends with.
pub open spec fn trimmed(s: Seq<char>) -> Seq<char> {
    if leading_whitespace(s) >= s.len() {
        Seq::empty()
    } else {
        s.subrange(leading_whitespace(s) as int, s.len() - trailing_whitespace(s))
    }
}

/// Whether `s` holds nothing but whitespace.
pub open spec fn blank(s: Seq<char>) -> bool {
    trimmed(s).len() == 0
}

/// Calls `char::is_whitespace`, which says whether a character has
/// Unicode's `White_Space` property. The property is a table of Unicode's,
/// so the result is only given a name here.
#[verifier::external_body]
pub(crate) fn is_whitespace(c: char) -> (w: bool)
    ensures
        w == whitespace(c),
{
    c.is_whitespace()
}

proof fn lemma_leading_whitespace(s: Seq<char>, a: nat)
    requires
        a <= s.len(),
        forall|j: int| 0 <= j < a ==> whitespace(s[j]),
        a == s.len() || !whitespace(s[a as int]),
    ensures
        leading_whitespace(s) == a,
    decreases a,
{
    if a > 0 {
        let rest = s.drop_first();
        assert forall|j: int| 0 <= j < a - 1 implies whitespace(rest[j]) by {
            assert(rest[j] == s[j + 1]);
        }
        if a < s.len() {
            assert(rest[a - 1] == s[a as int]);
        }
        lemma_leading_whitespace(rest, (a - 1) as nat);
    }
}

proof fn lemma_trailing_whitespace(s: Seq<char>, b: nat)
    requires
        b <= s.len(),
        forall|j: int| s.len() - b <= j < s.len() ==> whitespace(s[j]),
        b == s.len() || !whitespace(s[s.len() - b - 1]),
    ensures
        trailing_whitespace(s) == b,
    decreases b,
{
    if b > 0 {
        let rest = s.drop_last();
        assert forall|j: int| rest.len() - (b - 1) <= j < rest.len() implies whitespace(
            rest[j],
        ) by {
            assert(rest[j] == s[j]);
        }
        if b < s.len() {
            assert(rest[rest.len() - (b - 1) - 1] == s[s.len() - b - 1]);
        }
        lemma_trailing_whitespace(rest, (b - 1) as nat);
    }
}

/// The slice of `s` that is left without the whitespace that it begins and
/// ends with.
pub fn trim(s: &str) -> (t: &str)
    ensures
        t@ == trimmed(s@),
{
    let n = s.unicode_len();
    let mut a: usize = 0;
    while a < n && is_whitespace(s.get_char(a))
        invariant
            n == s@.len(),
            a <= n,
            forall|j: int| 0 <= j < a ==> whitespace(s@[j]),
        decreases n - a,
    {
        a += 1;
    }
    proof {
        lemma_leading_whitespace(s@, a as nat);
    }
    if a == n {
        let t = s.substring_char(n, n);
        assert(t@ =~= Seq::<char>::empty());
        return t;
    }
    let mut b: usize = n;
    while b > a + 1 && is_whitespace(s.get_char(b - 1))
        invariant
            n == s@.len(),
            a < b <= n,
            !whitespace(s@[a as int]),
            forall|j: int| b <= j < n ==> whitespace(s@[j]),
        decreases b,
    {
        b -= 1;
    }
    proof {
        lemma_trailing_whitespace(s@, (n - b) as nat);
    }
    s.substring_char(a, b)
}

/// `line` without the carriage return that it ends with, if it does.
pub open spec fn without_return(line: Seq<char>) -> Seq<char> {
    if line.len() > 0 && line.last() == '\r' {
        line.drop_last()
    } else {
        line
    }
}

/// How many characters stand before the first line feed of `s`; the length
/// of `s` where it holds none.
pub open spec fn first_line_len(s: Seq<char>) -> nat
    decreases s.len(),
{
    if s.len() == 0 || s[0] == '\n' {
        0
    } else {
        1 + first_line_len(s.drop_first())
    }
}

/// The lines of `s`: it is cut behind every line feed, and each piece loses
/// its line feed together with a carriage return just before it. What
/// follows the last line feed is a line too, unless it is empty.
pub open spec fn lines_of(s: Seq<char>) -> Seq<Seq<char>>
    decreases s.len(),
{
    let k = first_line_len(s);
    if s.len() == 0 {
        Seq::empty()
    } else if k < s.len() {
        seq![without_return(s.subrange(0, k as int))] + lines_of(
            s.subrange(k as int + 1, s.len() as int),
        )
    } else {
        seq![s]
    }
}

proof fn lemma_first_line_len(s: Seq<char>, k: nat)
    requires
        k <= s.len(),
        forall|j: int| 0 <= j < k ==> s[j] != '\n',
        k == s.len() || s[k as int] == '\n',
    ensures
        first_line_len(s) == k,
    decreases k,
{
    if k > 0 {
        let rest = s.drop_first();
        assert forall|j: int| 0 <= j < k - 1 implies rest[j] != '\n' by {
            assert(rest[j] == s[j + 1]);
        }
        if k < s.len() {
            assert(rest[k - 1] == s[k as int]);
        }
        lemma_first_line_len(rest, (k - 1) as nat);
    }
}

/// Splits a string into its lines: at every line feed, and without the
/// line feed and a carriage return just before it.
pub fn split_lines(s: &str) -> (lines: Vec<String>)
    ensures
        views(lines@) == lines_of(s@),
{
    let n = s.unicode_len();
    let mut lines: Vec<String> = Vec::new();
    let mut start: usize = 0;
    let mut i: usize = 0;
    assert(s@.subrange(0, n as int) =~= s@);
    assert(views(lines@) + lines_of(s@) =~= lines_of(s@));
    while i < n
        invariant
            n == s@.len(),
            start <= i <= n,
            forall|j: int| start <= j < i ==> s@[j] != '\n',
            lines_of(s@) == views(lines@) + lines_of(s@.subrange(start as int, n as int)),
        decreases n - i,
    {
        if s.get_char(i) == '\n' {
            let ghost rest = s@.subrange(start as int, n as int);
            let ghost before = lines@;
            proof {
                lemma_first_line_len(rest, (i - start) as nat);
                assert(rest.subrange(0, i - start) =~= s@.subrange(start as int, i as int));
                assert(rest.subrange(i - start + 1, rest.len() as int) =~= s@.subrange(
                    i + 1,
                    n as int,
                ));
            }
            let end = if i > start && s.get_char(i - 1) == '\r' {
                i - 1
            } else {
                i
            };
            let line = String::from_str(s.substring_char(start, end));
            assert(line@ =~= without_return(s@.subrange(start as int, i as int)));
            lines.push(line);
            assert(views(lines@) =~= views(before).push(line@));
            assert(lines_of(s@) =~= views(lines@) + lines_of(s@.subrange(i + 1, n as int)));
            start = i + 1;
        }
        i += 1;
    }
    if start < n {
        let ghost rest = s@.subrange(start as int, n as int);
        let ghost before = lines@;
        proof {
            lemma_first_line_len(rest, (n - start) as nat);
        }
        let line = String::from_str(s.substring_char(start, n));
        lines.push(line);
        assert(views(lines@) =~= views(before) + seq![rest]);
    } else {
        assert(views(lines@) + lines_of(s@.subrange(start as int, n as int)) =~= views(lines@));
    }
    lines
}

/// Folds every name of a list to lowercase.
pub fn fold_names(names: &Vec<String>) -> (lower: Vec<String>)
    ensures
        views(lower@) == folded(views(names@)),
{
    let mut lower: Vec<String> = Vec::new();
    let mut i: usize = 0;
    while i < names.len()
        invariant
            i <= names.len(),
            lower@.len() == i,
            forall|j: int| 0 <= j < i ==> lower@[j]@ == lowercase(names@[j]@),
        decreases names.len() - i,
    {
        lower.push(to_lowercase(names[i].as_str()));
        i += 1;
    }
    assert(views(lower@) =~= folded(views(names@)));
    lower
}

} // verus!
