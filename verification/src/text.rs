//! Operations on text, stated over sequences of characters.
use vstd::prelude::*;

verus! {

/// The characters with the Unicode property `White_Space`.
pub open spec fn is_white(c: char) -> bool {
    ||| '\u{9}' <= c <= '\u{d}'
    ||| c == '\u{20}'
    ||| c == '\u{85}'
    ||| c == '\u{a0}'
    ||| c == '\u{1680}'
    ||| '\u{2000}' <= c <= '\u{200a}'
    ||| c == '\u{2028}'
    ||| c == '\u{2029}'
    ||| c == '\u{202f}'
    ||| c == '\u{205f}'
    ||| c == '\u{3000}'
}

/// `s` without the white space at its start.
pub open spec fn trimmed_start(s: Seq<char>) -> Seq<char>
    decreases s.len(),
{
    if s.len() > 0 && is_white(s[0]) {
        trimmed_start(s.skip(1))
    } else {
        s
    }
}

/// `s` without the white space at its end.
pub open spec fn trimmed_end(s: Seq<char>) -> Seq<char>
    decreases s.len(),
{
    if s.len() > 0 && is_white(s.last()) {
        trimmed_end(s.drop_last())
    } else {
        s
    }
}

/// `s` without the white space at either end.
pub open spec fn trimmed(s: Seq<char>) -> Seq<char> {
    trimmed_end(trimmed_start(s))
}

/// Whether the first `c` in `s` stands at `i`.
pub open spec fn first_at(s: Seq<char>, c: char, i: int) -> bool {
    &&& 0 <= i < s.len()
    &&& s[i] == c
    &&& forall|j: int| 0 <= j < i ==> s[j] != c
}

/// The two parts of `s` around its first `sep`, if it has one.
pub open spec fn split_at_first(s: Seq<char>, sep: char) -> Option<(Seq<char>, Seq<char>)> {
    if exists|i: int| first_at(s, sep, i) {
        let i = choose|i: int| first_at(s, sep, i);
        Some((s.take(i), s.skip(i + 1)))
    } else {
        None
    }
}

/// What follows `prefix` in `s`, if `s` starts with it.
pub open spec fn after_prefix(s: Seq<char>, prefix: Seq<char>) -> Option<Seq<char>> {
    if prefix.is_prefix_of(s) {
        Some(s.skip(prefix.len() as int))
    } else {
        None
    }
}

/// Whether `needle` stands in `s` at `i`.
pub open spec fn occurs_at(s: Seq<char>, needle: Seq<char>, i: int) -> bool {
    &&& 0 <= i <= s.len() - needle.len()
    &&& s.subrange(i, i + needle.len()) == needle
}

/// Whether `needle` stands anywhere in `s`.
pub open spec fn occurs(s: Seq<char>, needle: Seq<char>) -> bool {
    exists|i: int| occurs_at(s, needle, i)
}

/// `s` with as many zeros in front as bring it to `width` characters.
pub open spec fn zero_filled(s: Seq<char>, width: nat) -> Seq<char> {
    if s.len() < width {
        Seq::new((width - s.len()) as nat, |i: int| '0') + s
    } else {
        s
    }
}

/// The parts in a row, with `sep` between each two.
pub open spec fn joined(parts: Seq<Seq<char>>, sep: Seq<char>) -> Seq<char>
    decreases parts.len(),
{
    if parts.len() == 0 {
        Seq::empty()
    } else if parts.len() == 1 {
        parts[0]
    } else {
        joined(parts.drop_last(), sep) + sep + parts.last()
    }
}

/// The path of the entry `name` in the directory `dir`; an absolute `name` stands for itself.
pub open spec fn path_in(dir: Seq<char>, name: Seq<char>) -> Seq<char> {
    if name.len() > 0 && name[0] == '/' {
        name
    } else if dir.len() == 0 || dir.last() == '/' {
        dir + name
    } else {
        dir.push('/') + name
    }
}

/// What follows the last slash of a path.
pub open spec fn last_component(path: Seq<char>) -> Seq<char>
    decreases path.len(),
{
    if path.len() == 0 || path.last() == '/' {
        Seq::empty()
    } else {
        last_component(path.drop_last()).push(path.last())
    }
}

/// A separator determines the split: no two places are both the first.
pub proof fn lemma_first_is_unique(s: Seq<char>, c: char, i: int, j: int)
    requires
        first_at(s, c, i),
        first_at(s, c, j),
    ensures
        i == j,
{
}

/// A text splits after its first part, if that has no separator itself.
pub proof fn lemma_split_after(first: Seq<char>, sep: char, rest: Seq<char>)
    requires
        forall|i: int| 0 <= i < first.len() ==> first[i] != sep,
    ensures
        split_at_first(first.push(sep) + rest, sep) == Some((first, rest)),
{
    let s = first.push(sep) + rest;
    let n = first.len() as int;
    assert(first_at(s, sep, n));
    let i = choose|i: int| first_at(s, sep, i);
    lemma_first_is_unique(s, sep, n, i);
    assert(s.take(n) =~= first);
    assert(s.skip(n + 1) =~= rest);
}

/// The parts around a separator hold what the whole holds.
pub proof fn lemma_parts_of_split(s: Seq<char>, sep: char)
    ensures
        match split_at_first(s, sep) {
            Some((first, rest)) => s == first.push(sep) + rest,
            None => !s.contains(sep),
        },
{
    if exists|i: int| first_at(s, sep, i) {
        let i = choose|i: int| first_at(s, sep, i);
        assert(s =~= s.take(i).push(sep) + s.skip(i + 1));
    } else if s.contains(sep) {
        s.index_of_first_ensures(sep);
        assert(first_at(s, sep, s.index_of_first(sep)->0));
    }
}

/// Whether two texts hold the same characters.
pub fn same(a: &str, b: &str) -> (r: bool)
    ensures
        r == (a@ == b@),
{
    a.to_owned() == b.to_owned()
}

/// Whether `s` starts with `prefix`.
pub fn starts_with(s: &str, prefix: &str) -> (r: bool)
    ensures
        r == prefix@.is_prefix_of(s@),
{
    let n: usize = prefix.unicode_len();
    if s.unicode_len() < n {
        return false;
    }
    same(s.substring_char(0, n), prefix)
}

/// What follows `prefix` in `s`.
pub fn strip_prefix<'a>(s: &'a str, prefix: &str) -> (r: Option<&'a str>)
    ensures
        r.deep_view() == after_prefix(s@, prefix@),
{
    if starts_with(s, prefix) {
        Some(s.substring_char(prefix.unicode_len(), s.unicode_len()))
    } else {
        None
    }
}

/// Whether `needle` occurs in `s`.
pub fn contains(s: &str, needle: &str) -> (r: bool)
    ensures
        r == occurs(s@, needle@),
{
    let n: usize = s.unicode_len();
    let m: usize = needle.unicode_len();
    if n < m {
        return false;
    }
    let mut i: usize = 0;
    while i <= n - m
        invariant
            n == s@.len(),
            m == needle@.len(),
            m <= n,
            i <= n - m + 1,
            forall|j: int| 0 <= j < i ==> !occurs_at(s@, needle@, j),
        decreases n - i,
    {
        if same(s.substring_char(i, i + m), needle) {
            assert(occurs_at(s@, needle@, i as int));
            return true;
        }
        if i == n - m {
            assert(forall|j: int| occurs_at(s@, needle@, j) ==> 0 <= j < i + 1);
            return false;
        }
        i = i + 1;
    }
    false
}

/// Splits `s` around its first `sep`.
pub fn split_once<'a>(s: &'a str, sep: char) -> (r: Option<(&'a str, &'a str)>)
    ensures
        r.deep_view() == split_at_first(s@, sep),
{
    let n: usize = s.unicode_len();
    let mut i: usize = 0;
    while i < n
        invariant
            n == s@.len(),
            i <= n,
            forall|j: int| 0 <= j < i ==> s@[j] != sep,
        decreases n - i,
    {
        if s.get_char(i) == sep {
            proof {
                assert(first_at(s@, sep, i as int));
                let k = choose|k: int| first_at(s@, sep, k);
                lemma_first_is_unique(s@, sep, i as int, k);
            }
            return Some((s.substring_char(0, i), s.substring_char(i + 1, n)));
        }
        i = i + 1;
    }
    None
}

/// Whether `c` is white space.
pub fn white(c: char) -> (r: bool)
    ensures
        r == is_white(c),
{
    ('\u{9}' <= c && c <= '\u{d}') || c == '\u{20}' || c == '\u{85}' || c == '\u{a0}' || c
        == '\u{1680}' || ('\u{2000}' <= c && c <= '\u{200a}') || c == '\u{2028}' || c == '\u{2029}'
        || c == '\u{202f}' || c == '\u{205f}' || c == '\u{3000}'
}

/// Removes the white space at both ends of `s`.
pub fn trim<'a>(s: &'a str) -> (r: &'a str)
    ensures
        r@ == trimmed(s@),
{
    let n: usize = s.unicode_len();
    let mut lo: usize = 0;
    assert(s@.skip(0) == s@);
    while lo < n && white(s.get_char(lo))
        invariant
            n == s@.len(),
            lo <= n,
            trimmed_start(s@) == trimmed_start(s@.skip(lo as int)),
        decreases n - lo,
    {
        assert(s@.skip(lo as int).skip(1) == s@.skip(lo + 1));
        lo = lo + 1;
    }
    let ghost rest = s@.skip(lo as int);
    assert(trimmed_start(s@) == rest);
    let mut hi: usize = n;
    assert(s@.subrange(lo as int, hi as int) == rest);
    while lo < hi && white(s.get_char(hi - 1))
        invariant
            n == s@.len(),
            lo <= hi <= n,
            trimmed_end(rest) == trimmed_end(s@.subrange(lo as int, hi as int)),
        decreases hi,
    {
        assert(s@.subrange(lo as int, hi as int).drop_last() == s@.subrange(lo as int, hi - 1));
        hi = hi - 1;
    }
    s.substring_char(lo, hi)
}

/// Puts zeros in front of `s` until it has `width` characters.
pub fn zero_fill(s: &str, width: usize) -> (r: String)
    ensures
        r@ == zero_filled(s@, width as nat),
{
    let n: usize = s.unicode_len();
    let mut r = String::new();
    let mut i: usize = n;
    while i < width
        invariant
            n == s@.len(),
            n <= i,
            i <= width || r@.len() == 0,
            r@ == Seq::new((i - n) as nat, |j: int| '0'),
        decreases width - i,
    {
        proof {
            reveal_strlit("0");
        }
        r.append("0");
        i = i + 1;
    }
    r.append(s);
    r
}

/// Puts the parts in a row with `sep` between them.
pub fn join(parts: &Vec<String>, sep: &str) -> (r: String)
    ensures
        r@ == joined(parts.deep_view(), sep@),
{
    let ghost all = parts.deep_view();
    let mut r = String::new();
    let mut i: usize = 0;
    while i < parts.len()
        invariant
            i <= parts.len(),
            all == parts.deep_view(),
            r@ == joined(all.take(i as int), sep@),
        decreases parts.len() - i,
    {
        assert(all.take(i + 1).drop_last() == all.take(i as int));
        if i > 0 {
            r.append(sep);
        }
        r.append(parts[i].as_str());
        i = i + 1;
    }
    assert(all.take(i as int) == all);
    r
}

/// The path of the entry `name` in the directory `dir`.
pub fn join_path(dir: &str, name: &str) -> (r: String)
    ensures
        r@ == path_in(dir@, name@),
{
    let n: usize = dir.unicode_len();
    if name.unicode_len() > 0 && name.get_char(0) == '/' {
        return name.to_owned();
    }
    let mut r = dir.to_owned();
    if n > 0 && dir.get_char(n - 1) != '/' {
        proof {
            reveal_strlit("/");
        }
        r.append("/");
        assert(r@ == dir@.push('/'));
    }
    r.append(name);
    r
}

/// What follows the last slash of `path`.
pub fn file_name<'a>(path: &'a str) -> (r: &'a str)
    ensures
        r@ == last_component(path@),
{
    let n: usize = path.unicode_len();
    let mut i: usize = n;
    assert(path@.take(n as int) == path@);
    assert(path@.skip(n as int) == Seq::<char>::empty());
    while i > 0 && path.get_char(i - 1) != '/'
        invariant
            n == path@.len(),
            i <= n,
            last_component(path@) == last_component(path@.take(i as int)) + path@.skip(i as int),
        decreases i,
    {
        assert(path@.take(i as int).drop_last() == path@.take(i - 1));
        assert(path@.skip(i - 1) == seq![path@[i - 1]] + path@.skip(i as int));
        i = i - 1;
    }
    path.substring_char(i, n)
}

/// One text after another.
pub fn concat(a: &str, b: &str) -> (r: String)
    ensures
        r@ == a@ + b@,
{
    let mut r = a.to_owned();
    r.append(b);
    r
}


/// What is trimmed is what stands between white space, however much of it.
pub proof fn law_white_space_goes(front: Seq<char>, s: Seq<char>, back: Seq<char>)
    requires
        forall|i: int| 0 <= i < front.len() ==> is_white(#[trigger] front[i]),
        forall|i: int| 0 <= i < back.len() ==> is_white(#[trigger] back[i]),
        s.len() > 0 ==> !is_white(s[0]) && !is_white(s.last()),
    ensures
        trimmed(front + s + back) == s,
{
    lemma_front_goes(front, s + back);
    assert(front + s + back =~= front + (s + back));
    if s.len() > 0 {
        assert((s + back)[0] == s[0]);
        lemma_back_goes(s, back);
    } else {
        lemma_front_goes(back, s);
        assert(s + back =~= back + s);
    }
}

proof fn lemma_front_goes(front: Seq<char>, s: Seq<char>)
    requires
        forall|i: int| 0 <= i < front.len() ==> is_white(#[trigger] front[i]),
    ensures
        trimmed_start(front + s) == trimmed_start(s),
    decreases front.len(),
{
    if front.len() == 0 {
        assert(front + s =~= s);
    } else {
        assert((front + s).skip(1) =~= front.skip(1) + s);
        assert((front + s)[0] == front[0]);
        lemma_front_goes(front.skip(1), s);
    }
}

proof fn lemma_back_goes(s: Seq<char>, back: Seq<char>)
    requires
        forall|i: int| 0 <= i < back.len() ==> is_white(#[trigger] back[i]),
        s.len() > 0,
        !is_white(s.last()),
    ensures
        trimmed_end(s + back) == s,
    decreases back.len(),
{
    if back.len() == 0 {
        assert(s + back =~= s);
    } else {
        assert((s + back).drop_last() =~= s + back.drop_last());
        assert((s + back).last() == back.last());
        lemma_back_goes(s, back.drop_last());
    }
}

/// Among the first 128 characters, white space is what separates words and lines: the space, and the
/// five from the tab to the carriage return. Behind them it is the next line, the spaces of other
/// widths and scripts, and the separators of lines and paragraphs.
pub proof fn law_white_space(c: char)
    ensures
        c <= '\u{7f}' ==> (is_white(c) <==> c == ' ' || '\t' <= c <= '\r'),
        c > '\u{7f}' ==> (is_white(c) <==> {
            ||| c == '\u{85}'
            ||| c == '\u{a0}'
            ||| c == '\u{1680}'
            ||| '\u{2000}' <= c <= '\u{200a}'
            ||| '\u{2028}' <= c <= '\u{2029}'
            ||| c == '\u{202f}'
            ||| c == '\u{205f}'
            ||| c == '\u{3000}'
        }),
{
}

/// The last component of a path is what follows its last slash.
pub proof fn law_last_component_follows_the_slash(dir: Seq<char>, name: Seq<char>)
    requires
        forall|i: int| 0 <= i < name.len() ==> name[i] != '/',
    ensures
        last_component(dir.push('/') + name) == name,
        last_component(name) == name,
    decreases name.len(),
{
    let path = dir.push('/') + name;
    if name.len() == 0 {
        assert(path.last() == '/');
    } else {
        assert(path.drop_last() =~= dir.push('/') + name.drop_last());
        assert(path.last() == name.last());
        law_last_component_follows_the_slash(dir, name.drop_last());
        assert(name.drop_last().push(name.last()) =~= name);
    }
}

/// An entry of a directory is named by the directory's path, one slash and the entry's name; a name
/// that begins with a slash stands for itself.
pub proof fn law_path_of_an_entry(dir: Seq<char>, name: Seq<char>)
    ensures
        name.len() > 0 && name[0] == '/' ==> path_in(dir, name) == name,
        !(name.len() > 0 && name[0] == '/') ==> {
            &&& dir.len() == 0 ==> path_in(dir, name) == name
            &&& dir.len() > 0 && dir.last() == '/' ==> path_in(dir, name) == dir + name
            &&& dir.len() > 0 && dir.last() != '/' ==> path_in(dir, name) == dir + seq!['/'] + name
        },
{
    assert(dir.push('/') =~= dir + seq!['/']);
    if dir.len() == 0 {
        assert(dir + name =~= name);
    }
}

/// Rows that are joined one after the other, with the separator between them, are joined as one.
pub proof fn law_joining_goes_on(a: Seq<Seq<char>>, b: Seq<Seq<char>>, sep: Seq<char>)
    ensures
        a.len() == 0 ==> joined(a, sep).len() == 0,
        a.len() == 1 ==> joined(a, sep) == a[0],
        a.len() > 0 && b.len() > 0 ==> joined(a + b, sep) == joined(a, sep) + sep + joined(b, sep),
    decreases b.len(),
{
    if a.len() > 0 && b.len() > 0 {
        assert((a + b).drop_last() =~= a + b.drop_last());
        assert((a + b).last() == b.last());
        if b.len() == 1 {
            assert(a + b.drop_last() =~= a);
        } else {
            law_joining_goes_on(a, b.drop_last(), sep);
            assert(joined(a, sep) + sep + joined(b.drop_last(), sep) + sep + b.last() =~= joined(
                a,
                sep,
            ) + sep + (joined(b.drop_last(), sep) + sep + b.last()));
        }
    }
}

/// A text is split at its first separator: what stands before has none, and both parts with the
/// separator between them are the whole. A text without one is not split.
pub proof fn law_split_at_the_first(s: Seq<char>, sep: char)
    ensures
        match split_at_first(s, sep) {
            Some((first, rest)) => s == first.push(sep) + rest && !first.contains(sep),
            None => !s.contains(sep),
        },
{
    lemma_parts_of_split(s, sep);
}

/// What follows a prefix is what has to be put behind it to have the whole.
pub proof fn law_prefix_comes_off(prefix: Seq<char>, rest: Seq<char>, s: Seq<char>)
    ensures
        after_prefix(prefix + rest, prefix) == Some(rest),
        after_prefix(s, prefix) matches Some(r) ==> s == prefix + r,
{
    assert(prefix =~= (prefix + rest).subrange(0, prefix.len() as int));
    assert((prefix + rest).skip(prefix.len() as int) =~= rest);
    if prefix.is_prefix_of(s) {
        assert(s =~= prefix + s.skip(prefix.len() as int));
    }
}

/// A text is filled up with zeros in front, to the width and no further.
pub proof fn law_zeros_stand_in_front(s: Seq<char>, width: nat, i: int)
    ensures
        s.len() >= width ==> zero_filled(s, width) == s,
        s.len() < width ==> {
            let r = zero_filled(s, width);
            let n = width - s.len();
            &&& r.len() == width
            &&& 0 <= i < n ==> r[i] == '0'
            &&& r.skip(n) == s
        },
{
    if s.len() < width {
        assert(zero_filled(s, width).skip(width - s.len()) =~= s);
    }
}

} // verus!
