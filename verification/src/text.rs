//! Character-level string helpers shared by the parsers and editors of the
//! library. Strings are handled as sequences of `char`s, their view.
use vstd::prelude::*;

verus! {

/// The characters that carry Unicode's `White_Space` property.
pub open spec fn is_white_space(c: char) -> bool {
    let u = c as u32;
    (0x9 <= u && u <= 0xd) || u == 0x20 || u == 0x85 || u == 0xa0 || u == 0x1680 || (0x2000 <= u
        && u <= 0x200a) || u == 0x2028 || u == 0x2029 || u == 0x202f || u == 0x205f || u == 0x3000
}

/// `s` without its leading white space.
pub open spec fn trim_start(s: Seq<char>) -> Seq<char>
    decreases s.len(),
{
    if s.len() > 0 && is_white_space(s[0]) {
        trim_start(s.drop_first())
    } else {
        s
    }
}

/// `s` without its trailing white space.
pub open spec fn trim_end(s: Seq<char>) -> Seq<char>
    decreases s.len(),
{
    if s.len() > 0 && is_white_space(s.last()) {
        trim_end(s.drop_last())
    } else {
        s
    }
}

/// `s` without leading and trailing white space (`str::trim`).
pub open spec fn trim(s: Seq<char>) -> Seq<char> {
    trim_end(trim_start(s))
}

/// Splits `s` around its first white-space character, which belongs to neither
/// part; `None` when `s` holds no white space.
pub open spec fn split_at_first_white_space(s: Seq<char>) -> Option<(Seq<char>, Seq<char>)>
    decreases s.len(),
{
    if s.len() == 0 {
        None
    } else if is_white_space(s[0]) {
        Some((Seq::empty(), s.drop_first()))
    } else {
        match split_at_first_white_space(s.drop_first()) {
            Some(parts) => Some((seq![s[0]] + parts.0, parts.1)),
            None => None,
        }
    }
}

/// Whether `s` holds no character but white space.
pub open spec fn is_blank(s: Seq<char>) -> bool {
    forall|i: int| 0 <= i < s.len() ==> is_white_space(#[trigger] s[i])
}

/// The character of a decimal digit.
pub open spec fn digit_char(d: nat) -> char {
    ((d + 48) as u32) as char
}

/// The decimal representation of `n`, without leading zeros.
pub open spec fn decimal(n: nat) -> Seq<char>
    decreases n,
{
    if n < 10 {
        seq![digit_char(n)]
    } else {
        decimal(n / 10).push(digit_char(n % 10))
    }
}

/// `char::is_whitespace`: the standard library documents it as true exactly for
/// the characters with the `White_Space` property.
#[verifier::external_body]
pub(crate) fn char_is_whitespace(c: char) -> (b: bool)
    ensures
        b == is_white_space(c),
{
    c.is_whitespace()
}

/// The characters of a string slice, in order (`str::chars` collected).
#[verifier::external_body]
pub(crate) fn str_chars(s: &str) -> (v: Vec<char>)
    ensures
        v@ == s@,
{
    s.chars().collect()
}

/// A `String` holding the given characters (`String: FromIterator<char>`).
#[verifier::external_body]
pub(crate) fn string_from_chars(v: &[char]) -> (s: String)
    ensures
        s@ == v@,
{
    v.iter().collect()
}

/// `usize::to_string`: the decimal representation of the number.
#[verifier::external_body]
pub(crate) fn usize_to_string(n: usize) -> (s: String)
    ensures
        s@ == decimal(n as nat),
{
    n.to_string()
}

proof fn lemma_trim_start(s: Seq<char>, i: int)
    requires
        0 <= i <= s.len(),
        forall|k: int| 0 <= k < i ==> is_white_space(#[trigger] s[k]),
        i == s.len() || !is_white_space(s[i]),
    ensures
        trim_start(s) == s.subrange(i, s.len() as int),
    decreases i,
{
    if i == 0 {
        assert(s.subrange(0, s.len() as int) =~= s);
    } else {
        let t = s.drop_first();
        assert forall|k: int| 0 <= k < i - 1 implies is_white_space(#[trigger] t[k]) by {
            assert(t[k] == s[k + 1]);
        }
        lemma_trim_start(t, i - 1);
        assert(t.subrange(i - 1, t.len() as int) =~= s.subrange(i, s.len() as int));
    }
}

proof fn lemma_trim_end(s: Seq<char>, j: int)
    requires
        0 <= j <= s.len(),
        forall|k: int| j <= k < s.len() ==> is_white_space(#[trigger] s[k]),
        j == 0 || !is_white_space(s[j - 1]),
    ensures
        trim_end(s) == s.subrange(0, j),
    decreases s.len() - j,
{
    if j == s.len() {
        assert(s.subrange(0, j) =~= s);
    } else {
        let t = s.drop_last();
        assert forall|k: int| j <= k < t.len() implies is_white_space(#[trigger] t[k]) by {
            assert(t[k] == s[k]);
        }
        lemma_trim_end(t, j);
        assert(t.subrange(0, j) =~= s.subrange(0, j));
    }
}

proof fn lemma_split_found(s: Seq<char>, p: int)
    requires
        0 <= p < s.len(),
        is_white_space(s[p]),
        forall|k: int| 0 <= k < p ==> !is_white_space(#[trigger] s[k]),
    ensures
        split_at_first_white_space(s) == Some((s.take(p), s.skip(p + 1))),
    decreases p,
{
    if p == 0 {
        assert(s.take(0) =~= Seq::<char>::empty());
        assert(s.skip(1) =~= s.drop_first());
    } else {
        let t = s.drop_first();
        assert forall|k: int| 0 <= k < p - 1 implies !is_white_space(#[trigger] t[k]) by {
            assert(t[k] == s[k + 1]);
        }
        assert(!is_white_space(s[0]));
        lemma_split_found(t, p - 1);
        assert(seq![s[0]] + t.take(p - 1) =~= s.take(p));
        assert(t.skip(p) =~= s.skip(p + 1));
    }
}

proof fn lemma_split_none(s: Seq<char>)
    requires
        forall|k: int| 0 <= k < s.len() ==> !is_white_space(#[trigger] s[k]),
    ensures
        split_at_first_white_space(s) is None,
    decreases s.len(),
{
    if s.len() > 0 {
        let t = s.drop_first();
        assert forall|k: int| 0 <= k < t.len() implies !is_white_space(#[trigger] t[k]) by {
            assert(t[k] == s[k + 1]);
        }
        assert(!is_white_space(s[0]));
        lemma_split_none(t);
    }
}

/// A copy of the characters `v[from..to]`.
pub fn copy_range(v: &Vec<char>, from: usize, to: usize) -> (r: Vec<char>)
    requires
        from <= to <= v.len(),
    ensures
        r@ == v@.subrange(from as int, to as int),
{
    let mut r: Vec<char> = Vec::new();
    let mut i: usize = from;
    while i < to
        invariant
            from <= i <= to <= v.len(),
            r@ == v@.subrange(from as int, i as int),
        decreases to - i,
    {
        r.push(v[i]);
        i = i + 1;
        assert(r@ =~= v@.subrange(from as int, i as int));
    }
    r
}

/// `chars` without leading white space.
pub fn trim_start_chars(chars: &Vec<char>) -> (r: Vec<char>)
    ensures
        r@ == trim_start(chars@),
{
    let n = chars.len();
    let mut i: usize = 0;
    while i < n && char_is_whitespace(chars[i])
        invariant
            i <= n == chars.len(),
            forall|k: int| 0 <= k < i ==> is_white_space(#[trigger] chars@[k]),
        decreases n - i,
    {
        i = i + 1;
    }
    proof {
        lemma_trim_start(chars@, i as int);
    }
    copy_range(chars, i, n)
}

/// `chars` without leading and trailing white space.
pub fn trim_chars(chars: &Vec<char>) -> (r: Vec<char>)
    ensures
        r@ == trim(chars@),
{
    let n = chars.len();
    let mut i: usize = 0;
    while i < n && char_is_whitespace(chars[i])
        invariant
            i <= n == chars.len(),
            forall|k: int| 0 <= k < i ==> is_white_space(#[trigger] chars@[k]),
        decreases n - i,
    {
        i = i + 1;
    }
    proof {
        lemma_trim_start(chars@, i as int);
    }
    let mut j: usize = n;
    while j > i && char_is_whitespace(chars[j - 1])
        invariant
            i <= j <= n == chars.len(),
            forall|k: int| j <= k < n ==> is_white_space(#[trigger] chars@[k]),
        decreases j - i,
    {
        j = j - 1;
    }
    let ghost t = chars@.subrange(i as int, n as int);
    proof {
        assert forall|k: int| j - i <= k < t.len() implies is_white_space(#[trigger] t[k]) by {
            assert(t[k] == chars@[k + i]);
        }
        if j > i {
            assert(t[j - i - 1] == chars@[j - 1]);
        }
        lemma_trim_end(t, j - i);
        assert(t.subrange(0, j - i) =~= chars@.subrange(i as int, j as int));
    }
    copy_range(chars, i, j)
}

/// Splits `chars` around its first white-space character, as
/// `str::split_once(char::is_whitespace)` does.
pub fn split_once_white_space(chars: &Vec<char>) -> (r: Option<(Vec<char>, Vec<char>)>)
    ensures
        match r {
            Some(parts) => split_at_first_white_space(chars@) == Some((parts.0@, parts.1@)),
            None => split_at_first_white_space(chars@) is None,
        },
{
    let n = chars.len();
    let mut p: usize = 0;
    while p < n
        invariant
            p <= n == chars.len(),
            forall|k: int| 0 <= k < p ==> !is_white_space(#[trigger] chars@[k]),
        decreases n - p,
    {
        if char_is_whitespace(chars[p]) {
            proof {
                lemma_split_found(chars@, p as int);
            }
            let a = copy_range(chars, 0, p);
            let b = copy_range(chars, p + 1, n);
            assert(a@ =~= chars@.take(p as int));
            assert(b@ =~= chars@.skip(p + 1));
            return Some((a, b));
        }
        p = p + 1;
    }
    proof {
        lemma_split_none(chars@);
    }
    None
}

/// Whether `chars` holds only white space.
pub fn chars_are_blank(chars: &Vec<char>) -> (b: bool)
    ensures
        b == is_blank(chars@),
{
    let mut i: usize = 0;
    while i < chars.len()
        invariant
            i <= chars.len(),
            forall|k: int| 0 <= k < i ==> is_white_space(#[trigger] chars@[k]),
        decreases chars.len() - i,
    {
        if !char_is_whitespace(chars[i]) {
            return false;
        }
        i = i + 1;
    }
    true
}

/// Whether `a` and `b` hold the same characters.
pub fn chars_equal(a: &Vec<char>, b: &Vec<char>) -> (r: bool)
    ensures
        r == (a@ == b@),
{
    if a.len() != b.len() {
        return false;
    }
    let mut i: usize = 0;
    while i < a.len()
        invariant
            i <= a.len() == b.len(),
            forall|k: int| 0 <= k < i ==> a@[k] == b@[k],
        decreases a.len() - i,
    {
        if a[i] != b[i] {
            return false;
        }
        i = i + 1;
    }
    assert(a@ =~= b@);
    true
}

/// Whether `p` is a prefix of `s`.
pub fn chars_start_with(s: &Vec<char>, p: &Vec<char>) -> (r: bool)
    ensures
        r == p@.is_prefix_of(s@),
{
    if p.len() > s.len() {
        return false;
    }
    let mut i: usize = 0;
    while i < p.len()
        invariant
            i <= p.len() <= s.len(),
            forall|k: int| 0 <= k < i ==> p@[k] == s@[k],
        decreases p.len() - i,
    {
        if p[i] != s[i] {
            return false;
        }
        i = i + 1;
    }
    true
}

/// Appends the characters of `b` to `a`.
pub fn append_chars(a: &mut Vec<char>, b: &Vec<char>)
    ensures
        final(a)@ == old(a)@ + b@,
{
    let mut i: usize = 0;
    while i < b.len()
        invariant
            i <= b.len(),
            a@ == old(a)@ + b@.take(i as int),
        decreases b.len() - i,
    {
        a.push(b[i]);
        i = i + 1;
        assert(a@ =~= old(a)@ + b@.take(i as int));
    }
    assert(b@.take(b.len() as int) =~= b@);
}

} // verus!

verus! {

/// The length of the longest common prefix of `a` and `b`.
pub open spec fn common_prefix_len(a: Seq<char>, b: Seq<char>) -> nat
    decreases a.len(),
{
    if a.len() == 0 || b.len() == 0 || a[0] != b[0] {
        0
    } else {
        1 + common_prefix_len(a.drop_first(), b.drop_first())
    }
}

/// The longest common prefix of all the strings of `list`; `None` for an empty
/// list.
pub open spec fn longest_common_prefix(list: Seq<Seq<char>>) -> Option<Seq<char>>
    decreases list.len(),
{
    if list.len() == 0 {
        None
    } else {
        match longest_common_prefix(list.drop_last()) {
            None => Some(list.last()),
            Some(p) => Some(p.take(common_prefix_len(p, list.last()) as int)),
        }
    }
}

/// The strings of `list` that start with `prefix`, in their order.
pub open spec fn with_prefix(list: Seq<Seq<char>>, prefix: Seq<char>) -> Seq<Seq<char>>
    decreases list.len(),
{
    if list.len() == 0 {
        Seq::empty()
    } else if prefix.is_prefix_of(list.last()) {
        with_prefix(list.drop_last(), prefix).push(list.last())
    } else {
        with_prefix(list.drop_last(), prefix)
    }
}

/// `s` up to, not including, its last space; empty when it holds no space.
pub open spec fn before_last_space(s: Seq<char>) -> Seq<char>
    decreases s.len(),
{
    if s.len() == 0 {
        s
    } else if s.last() == ' ' {
        s.drop_last()
    } else {
        before_last_space(s.drop_last())
    }
}

/// `char::to_ascii_uppercase`.
pub open spec fn ascii_upper(c: char) -> char {
    if 'a' <= c && c <= 'z' {
        ((c as u32) - 32) as char
    } else {
        c
    }
}

/// `char::to_ascii_uppercase`, documented to map `a..=z` to `A..=Z` and to
/// keep every other character.
#[verifier::external_body]
pub(crate) fn char_to_ascii_uppercase(c: char) -> (u: char)
    ensures
        u == ascii_upper(c),
{
    c.to_ascii_uppercase()
}

/// A prefix of `a` is a prefix of `b` exactly when it is no longer than their
/// common prefix.
pub proof fn lemma_common_prefix(a: Seq<char>, b: Seq<char>, k: int)
    requires
        0 <= k <= a.len(),
    ensures
        a.take(k).is_prefix_of(b) <==> k <= common_prefix_len(a, b),
        common_prefix_len(a, b) <= a.len(),
        common_prefix_len(a, b) <= b.len(),
        a.take(common_prefix_len(a, b) as int).is_prefix_of(b),
    decreases a.len(),
{
    if a.len() == 0 || b.len() == 0 || a[0] != b[0] {
        if k > 0 {
            assert(a.take(k)[0] == a[0]);
        }
        assert(a.take(0) =~= Seq::<char>::empty());
    } else {
        let a1 = a.drop_first();
        let b1 = b.drop_first();
        let c = common_prefix_len(a1, b1);
        if k > 0 {
            lemma_common_prefix(a1, b1, k - 1);
            if a.take(k).is_prefix_of(b) {
                assert forall|i: int| 0 <= i < k - 1 implies a1.take(k - 1)[i] == b1[i] by {
                    assert(a.take(k)[i + 1] == b[i + 1]);
                }
            }
            if k - 1 <= c {
                assert forall|i: int| 0 <= i < k implies a.take(k)[i] == b[i] by {
                    if i > 0 {
                        assert(a1.take(k - 1)[i - 1] == b1[i - 1]);
                    }
                }
            }
        } else {
            lemma_common_prefix(a1, b1, 0);
        }
        lemma_common_prefix(a1, b1, c as int);
        assert forall|i: int| 0 <= i < c + 1 implies a.take(c + 1int)[i] == b[i] by {
            if i > 0 {
                assert(a1.take(c as int)[i - 1] == b1[i - 1]);
            }
        }
    }
}

/// The longest common prefix of the strings of `list`, computed as the original
/// fold does: start from the first string and shorten it until it is a prefix
/// of each following one.
pub fn longest_common_prefix_of(list: &Vec<Vec<char>>) -> (r: Option<Vec<char>>)
    ensures
        match r {
            Some(p) => longest_common_prefix(list@.map_values(|v: Vec<char>| v@)) == Some(p@),
            None => longest_common_prefix(list@.map_values(|v: Vec<char>| v@)) is None,
        },
{
    let ghost views = list@.map_values(|v: Vec<char>| v@);
    let mut acc: Option<Vec<char>> = None;
    let mut i: usize = 0;
    while i < list.len()
        invariant
            i <= list.len(),
            views == list@.map_values(|v: Vec<char>| v@),
            match acc {
                Some(p) => longest_common_prefix(views.take(i as int)) == Some(p@),
                None => longest_common_prefix(views.take(i as int)) is None,
            },
        decreases list.len() - i,
    {
        let s = &list[i];
        assert(views.take(i + 1).drop_last() =~= views.take(i as int));
        assert(views.take(i + 1).last() == s@);
        match acc {
            None => {
                acc = Some(s.clone());
            },
            Some(p0) => {
                let mut p = p0;
                let ghost k0 = p@.len();
                proof {
                    lemma_common_prefix(p0@, s@, k0 as int);
                    assert(p0@.take(k0 as int) =~= p0@);
                }
                while !chars_start_with(s, &p)
                    invariant
                        p@.len() <= p0@.len(),
                        p@ == p0@.take(p@.len() as int),
                        common_prefix_len(p0@, s@) <= p@.len(),
                    decreases p@.len(),
                {
                    proof {
                        lemma_common_prefix(p0@, s@, p@.len() as int);
                    }
                    p.pop();
                    assert(p@ =~= p0@.take(p@.len() as int));
                }
                proof {
                    lemma_common_prefix(p0@, s@, p@.len() as int);
                }
                acc = Some(p);
            },
        }
        i = i + 1;
    }
    assert(views.take(list.len() as int) =~= views);
    acc
}

} // verus!

verus! {

proof fn lemma_trim_start_not_blank(s: Seq<char>)
    requires
        !is_blank(s),
    ensures
        !is_blank(trim_start(s)),
        trim_start(s).len() > 0 && !is_white_space(trim_start(s)[0]),
    decreases s.len(),
{
    if s.len() > 0 && is_white_space(s[0]) {
        let t = s.drop_first();
        let k = choose|k: int| 0 <= k < s.len() && !is_white_space(#[trigger] s[k]);
        assert(t[k - 1] == s[k]);
        lemma_trim_start_not_blank(t);
    }
}

proof fn lemma_trim_end_keeps_first(s: Seq<char>)
    requires
        s.len() > 0,
        !is_white_space(s[0]),
    ensures
        trim_end(s).len() > 0,
        trim_end(s)[0] == s[0],
    decreases s.len(),
{
    if s.len() > 0 && is_white_space(s.last()) {
        let t = s.drop_last();
        assert(t.len() > 0);
        lemma_trim_end_keeps_first(t);
    }
}

/// A text that holds more than white space still does once trimmed.
pub proof fn lemma_trim_not_blank(s: Seq<char>)
    requires
        !is_blank(s),
    ensures
        !is_blank(trim(s)),
{
    lemma_trim_start_not_blank(s);
    lemma_trim_end_keeps_first(trim_start(s));
    assert(!is_white_space(trim(s)[0]));
}

/// `c` in lower case when it is an ASCII letter.
pub open spec fn ascii_lower(c: char) -> char {
    if 'A' <= c && c <= 'Z' {
        ((c as u32) + 32) as char
    } else {
        c
    }
}

/// `str::to_ascii_lowercase`.
pub open spec fn ascii_lowercase(s: Seq<char>) -> Seq<char> {
    s.map_values(|c: char| ascii_lower(c))
}

/// `char::to_ascii_lowercase`, documented to map `A..=Z` to `a..=z` and to keep
/// every other character.
#[verifier::external_body]
pub(crate) fn char_to_ascii_lowercase(c: char) -> (l: char)
    ensures
        l == ascii_lower(c),
{
    c.to_ascii_lowercase()
}

/// The characters of `chars`, ASCII letters in lower case.
pub fn to_ascii_lowercase_chars(chars: &Vec<char>) -> (r: Vec<char>)
    ensures
        r@ == ascii_lowercase(chars@),
{
    let mut r: Vec<char> = Vec::new();
    let mut i: usize = 0;
    while i < chars.len()
        invariant
            i <= chars.len(),
            r@ == ascii_lowercase(chars@.take(i as int)),
        decreases chars.len() - i,
    {
        r.push(char_to_ascii_lowercase(chars[i]));
        i = i + 1;
        assert(r@ =~= ascii_lowercase(chars@.take(i as int)));
    }
    assert(chars@.take(chars.len() as int) =~= chars@);
    r
}

} // verus!

verus! {

/// The lines of `s` as `str::lines` yields them: split at each `\n`, one `\r`
/// before a `\n` dropped with it; a final line ending adds no empty line.
pub open spec fn lines_of(s: Seq<char>) -> Seq<Seq<char>>
    decreases s.len(),
{
    if s.len() == 0 {
        Seq::empty()
    } else {
        match first_newline(s) {
            Some(i) => {
                proof {
                    lemma_first_newline(s);
                }
                let line = s.take(i);
                let line = if line.len() > 0 && line.last() == '\r' {
                    line.drop_last()
                } else {
                    line
                };
                seq![line] + lines_of(s.skip(i + 1))
            },
            None => seq![s],
        }
    }
}

/// The index of the first `\n` of `s`.
pub open spec fn first_newline(s: Seq<char>) -> Option<int>
    decreases s.len(),
{
    if s.len() == 0 {
        None
    } else if s[0] == '\n' {
        Some(0)
    } else {
        match first_newline(s.drop_first()) {
            Some(i) => Some(i + 1),
            None => None,
        }
    }
}

/// Where the first `\n` of `s` is.
pub proof fn lemma_first_newline(s: Seq<char>)
    ensures
        match first_newline(s) {
            Some(i) => 0 <= i < s.len() && s[i] == '\n' && forall|k: int|
                0 <= k < i ==> s[k] != '\n',
            None => forall|k: int| 0 <= k < s.len() ==> s[k] != '\n',
        },
    decreases s.len(),
{
    if s.len() > 0 {
        lemma_first_newline(s.drop_first());
        if s[0] != '\n' {
            match first_newline(s.drop_first()) {
                Some(i) => {
                    assert forall|k: int| 0 <= k < i + 1 implies s[k] != '\n' by {
                        if k > 0 {
                            assert(s[k] == s.drop_first()[k - 1]);
                        }
                    }
                },
                None => {
                    assert forall|k: int| 0 <= k < s.len() implies s[k] != '\n' by {
                        if k > 0 {
                            assert(s[k] == s.drop_first()[k - 1]);
                        }
                    }
                },
            }
        }
    }
}

/// `str::lines`, collected: the standard library documents that lines end at
/// `\n` or `\r\n`, that the terminators are not part of the lines, and that a
/// final line ending is optional.
#[verifier::external_body]
pub(crate) fn str_lines(s: &str) -> (r: Vec<&str>)
    ensures
        r@.map_values(|l: &str| l@) == lines_of(s@),
{
    s.lines().collect()
}

} // verus!

verus! {

/// Every string of `with_prefix(list, prefix)` starts with `prefix`.
pub proof fn lemma_with_prefix(list: Seq<Seq<char>>, prefix: Seq<char>)
    ensures
        forall|i: int|
            0 <= i < with_prefix(list, prefix).len() ==> prefix.is_prefix_of(
                #[trigger] with_prefix(list, prefix)[i],
            ),
    decreases list.len(),
{
    if list.len() > 0 {
        let rest = with_prefix(list.drop_last(), prefix);
        lemma_with_prefix(list.drop_last(), prefix);
        if prefix.is_prefix_of(list.last()) {
            assert forall|i: int|
                0 <= i < rest.push(list.last()).len() implies prefix.is_prefix_of(
                #[trigger] rest.push(list.last())[i],
            ) by {
                if i < rest.len() {
                    assert(rest.push(list.last())[i] == rest[i]);
                }
            }
        }
    }
}

/// The longest common prefix of a list is a prefix of each of its strings, and
/// a prefix `q` of all of them is a prefix of it.
pub proof fn lemma_longest_common_prefix(list: Seq<Seq<char>>, q: Seq<char>)
    requires
        forall|i: int| 0 <= i < list.len() ==> q.is_prefix_of(#[trigger] list[i]),
    ensures
        match longest_common_prefix(list) {
            None => list.len() == 0,
            Some(p) => q.is_prefix_of(p) && forall|i: int|
                0 <= i < list.len() ==> p.is_prefix_of(#[trigger] list[i]),
        },
    decreases list.len(),
{
    if list.len() > 0 {
        let rest = list.drop_last();
        assert forall|i: int| 0 <= i < rest.len() implies q.is_prefix_of(#[trigger] rest[i]) by {
            assert(rest[i] == list[i]);
        }
        lemma_longest_common_prefix(rest, q);
        let last = list.last();
        assert(q.is_prefix_of(list[list.len() - 1]));
        match longest_common_prefix(rest) {
            None => {
                assert(list.len() == 1);
                assert(last.is_prefix_of(list[0]));
            },
            Some(p0) => {
                let c = common_prefix_len(p0, last);
                lemma_common_prefix(p0, last, 0);
                lemma_common_prefix(p0, last, c as int);
                let p = p0.take(c as int);
                assert forall|i: int| 0 <= i < list.len() implies p.is_prefix_of(#[trigger] list[i]) by {
                    if i < list.len() - 1 {
                        assert(p0.is_prefix_of(rest[i]));
                        assert(rest[i] == list[i]);
                    }
                }
                lemma_common_prefix(p0, last, q.len() as int);
                assert(p0.take(q.len() as int) =~= q);
            },
        }
    }
}

} // verus!
