//! Character-level string helpers shared by the rest of the library.

use vstd::prelude::*;

verus! {

/// What `char::is_uppercase` answers for a character (Unicode `Uppercase`).
pub uninterp spec fn char_is_uppercase(c: char) -> bool;

/// Whether a character has the Unicode `White_Space` property, as
/// `char::is_whitespace` answers: U+0009 to U+000D, U+0020, U+0085, U+00A0,
/// U+1680, U+2000 to U+200A, U+2028, U+2029, U+202F, U+205F and U+3000.
pub open spec fn is_ws(c: char) -> bool {
    let u = c as u32;
    ||| 0x9 <= u <= 0xD
    ||| u == 0x20
    ||| u == 0x85
    ||| u == 0xA0
    ||| u == 0x1680
    ||| 0x2000 <= u <= 0x200A
    ||| u == 0x2028
    ||| u == 0x2029
    ||| u == 0x202F
    ||| u == 0x205F
    ||| u == 0x3000
}

/// Whether a character is uppercase as `char::is_uppercase` answers: for
/// ASCII exactly `A` to `Z`; beyond ASCII the answer named by `char_is_uppercase`.
pub open spec fn is_upper(c: char) -> bool {
    if (c as u32) < 128 {
        'A' <= c <= 'Z'
    } else {
        char_is_uppercase(c)
    }
}

/// Whether a character is whitespace (see `is_ws`).
pub fn is_whitespace(c: char) -> (r: bool)
    ensures
        r == is_ws(c),
{
    let u = c as u32;
    (0x9 <= u && u <= 0xD) || u == 0x20 || u == 0x85 || u == 0xA0 || u == 0x1680 || (0x2000 <= u && u <= 0x200A)
        || u == 0x2028 || u == 0x2029 || u == 0x202F || u == 0x205F || u == 0x3000
}

/// Calls `char::is_uppercase`: for ASCII characters exactly `A` to `Z`,
/// beyond ASCII the answer named by `char_is_uppercase`.
#[verifier::external_body]
pub(crate) fn is_uppercase(c: char) -> (r: bool)
    ensures
        r == is_upper(c),
        (c as u32) >= 128 ==> r == char_is_uppercase(c),
{
    c.is_uppercase()
}

/// Calls `String::push`: the character is appended at the end.
#[verifier::external_body]
pub(crate) fn push_char(s: &mut String, c: char)
    ensures
        final(s)@ == old(s)@.push(c),
{
    s.push(c);
}

/// The characters of a string slice, in order.
pub fn chars_of(s: &str) -> (r: Vec<char>)
    ensures
        r@ == s@,
{
    let mut r: Vec<char> = Vec::new();
    for c in it: s.chars()
        invariant
            r@ == it.seq().take(it.index()),
            it.seq() == s@,
    {
        r.push(c);
    }
    r
}

} // verus!

verus! {

/// An owned copy of a string slice.
pub fn owned(s: &str) -> (r: String)
    ensures
        r@ == s@,
{
    String::from_str(s)
}

/// The string made of the characters `v[from..to]`.
pub fn string_of(v: &Vec<char>, from: usize, to: usize) -> (r: String)
    requires
        from <= to <= v@.len(),
    ensures
        r@ == v@.subrange(from as int, to as int),
{
    let mut r = String::new();
    let mut i = from;
    while i < to
        invariant
            from <= i <= to <= v@.len(),
            r@ == v@.subrange(from as int, i as int),
        decreases to - i,
    {
        push_char(&mut r, v[i]);
        assert(v@.subrange(from as int, i + 1) == v@.subrange(from as int, i as int).push(v@[i as int]));
        i += 1;
    }
    r
}

/// Appends a string slice to a string.
pub fn push_str(s: &mut String, t: &str)
    ensures
        final(s)@ == old(s)@ + t@,
{
    s.append(t);
}

/// True when every character of `s` is whitespace, that is when `s.trim()` is empty.
pub open spec fn is_blank(s: Seq<char>) -> bool {
    forall|i: int| 0 <= i < s.len() ==> is_ws(#[trigger] s[i])
}

/// Tells whether every character of `s` is whitespace (`s.trim().is_empty()`).
pub fn blank(s: &str) -> (r: bool)
    ensures
        r == is_blank(s@),
{
    let v = chars_of(s);
    let mut i: usize = 0;
    while i < v.len()
        invariant
            i <= v@.len(),
            v@ == s@,
            forall|j: int| 0 <= j < i ==> is_ws(#[trigger] v@[j]),
        decreases v@.len() - i,
    {
        if !is_whitespace(v[i]) {
            return false;
        }
        i += 1;
    }
    true
}

/// `s` with its leading whitespace removed (`str::trim_start`).
pub open spec fn trim_start_spec(s: Seq<char>) -> Seq<char>
    decreases s.len(),
{
    if s.len() > 0 && is_ws(s[0]) {
        trim_start_spec(s.drop_first())
    } else {
        s
    }
}

/// `s` with its trailing whitespace removed (`str::trim_end`).
pub open spec fn trim_end_spec(s: Seq<char>) -> Seq<char>
    decreases s.len(),
{
    if s.len() > 0 && is_ws(s.last()) {
        trim_end_spec(s.drop_last())
    } else {
        s
    }
}

/// `s` with leading and trailing whitespace removed (`str::trim`).
pub open spec fn trim_spec(s: Seq<char>) -> Seq<char> {
    trim_end_spec(trim_start_spec(s))
}

/// Index of the first character of `v[from..to]` that is not whitespace, or `to`.
pub fn skip_start(v: &Vec<char>, from: usize, to: usize) -> (r: usize)
    requires
        from <= to <= v@.len(),
    ensures
        from <= r <= to,
        trim_start_spec(v@.subrange(from as int, to as int)) == v@.subrange(r as int, to as int),
    decreases to - from,
{
    if from < to && is_whitespace(v[from]) {
        assert(v@.subrange(from as int, to as int).drop_first() == v@.subrange(from + 1, to as int));
        skip_start(v, from + 1, to)
    } else {
        from
    }
}

/// End of `v[from..to]` once trailing whitespace is dropped.
pub fn skip_end(v: &Vec<char>, from: usize, to: usize) -> (r: usize)
    requires
        from <= to <= v@.len(),
    ensures
        from <= r <= to,
        trim_end_spec(v@.subrange(from as int, to as int)) == v@.subrange(from as int, r as int),
    decreases to - from,
{
    if from < to && is_whitespace(v[to - 1]) {
        assert(v@.subrange(from as int, to as int).drop_last() == v@.subrange(from as int, to - 1));
        skip_end(v, from, to - 1)
    } else {
        to
    }
}

/// `v[from..to]` with leading whitespace removed, as a string.
pub fn trim_start_range(v: &Vec<char>, from: usize, to: usize) -> (r: String)
    requires
        from <= to <= v@.len(),
    ensures
        r@ == trim_start_spec(v@.subrange(from as int, to as int)),
{
    let s = skip_start(v, from, to);
    string_of(v, s, to)
}

/// `v[from..to]` with leading and trailing whitespace removed, as a string.
pub fn trim_range(v: &Vec<char>, from: usize, to: usize) -> (r: String)
    requires
        from <= to <= v@.len(),
    ensures
        r@ == trim_spec(v@.subrange(from as int, to as int)),
{
    let s = skip_start(v, from, to);
    let e = skip_end(v, s, to);
    string_of(v, s, e)
}

/// `str::trim`: the string without leading and trailing whitespace.
pub fn trim(s: &str) -> (r: String)
    ensures
        r@ == trim_spec(s@),
{
    let v = chars_of(s);
    assert(v@.subrange(0, v@.len() as int) == v@);
    trim_range(&v, 0, v.len())
}

} // verus!

verus! {

/// Position of the first `c` in `s`, as `str::find` / `split_once` locate it.
pub open spec fn find_char(s: Seq<char>, c: char) -> Option<int>
    decreases s.len(),
{
    if s.len() == 0 {
        None
    } else if s[0] == c {
        Some(0)
    } else {
        match find_char(s.drop_first(), c) {
            Some(i) => Some(i + 1),
            None => None,
        }
    }
}

/// Position of the last `c` in `s`, as `rsplit_once` locates it.
pub open spec fn rfind_char(s: Seq<char>, c: char) -> Option<int>
    decreases s.len(),
{
    if s.len() == 0 {
        None
    } else if s.last() == c {
        Some(s.len() - 1)
    } else {
        rfind_char(s.drop_last(), c)
    }
}

/// A found position lies inside the sequence and holds the character; no
/// earlier one does.
pub proof fn lemma_find_char(s: Seq<char>, c: char)
    ensures
        match find_char(s, c) {
            Some(i) => 0 <= i < s.len() && s[i] == c && forall|j: int| 0 <= j < i ==> s[j] != c,
            None => forall|j: int| 0 <= j < s.len() ==> s[j] != c,
        },
    decreases s.len(),
{
    if s.len() > 0 && s[0] != c {
        lemma_find_char(s.drop_first(), c);
        match find_char(s.drop_first(), c) {
            Some(i) => {
                assert forall|j: int| 0 <= j < i + 1 implies s[j] != c by {
                    if j > 0 {
                        assert(s[j] == s.drop_first()[j - 1]);
                    }
                }
            },
            None => {
                assert forall|j: int| 0 <= j < s.len() implies s[j] != c by {
                    if j > 0 {
                        assert(s[j] == s.drop_first()[j - 1]);
                    }
                }
            },
        }
    }
}

/// A position found from the end lies inside the sequence and holds the
/// character; no later one does.
pub proof fn lemma_rfind_char(s: Seq<char>, c: char)
    ensures
        match rfind_char(s, c) {
            Some(i) => 0 <= i < s.len() && s[i] == c && forall|j: int| i < j < s.len() ==> s[j] != c,
            None => forall|j: int| 0 <= j < s.len() ==> s[j] != c,
        },
    decreases s.len(),
{
    if s.len() > 0 && s.last() != c {
        lemma_rfind_char(s.drop_last(), c);
        assert forall|j: int| 0 <= j < s.len() - 1 implies s[j] == s.drop_last()[j] by {}
    }
}

/// First `c` in `v[from..to]`, as an index into `v`.
pub fn find_char_in(v: &Vec<char>, from: usize, to: usize, c: char) -> (r: Option<usize>)
    requires
        from <= to <= v@.len(),
    ensures
        r == (match find_char(v@.subrange(from as int, to as int), c) {
            Some(i) => Some((i + from) as usize),
            None => None::<usize>,
        }),
{
    let mut i = from;
    while i < to
        invariant
            from <= i <= to <= v@.len(),
            find_char(v@.subrange(from as int, to as int), c) == (match find_char(
                v@.subrange(i as int, to as int),
                c,
            ) {
                Some(k) => Some(k + (i - from)),
                None => None::<int>,
            }),
        decreases to - i,
    {
        if v[i] == c {
            return Some(i);
        }
        assert(v@.subrange(i as int, to as int).drop_first() == v@.subrange(i + 1, to as int));
        i += 1;
    }
    None
}

/// Last `c` in `v[from..to]`, as an index into `v`.
pub fn rfind_char_in(v: &Vec<char>, from: usize, to: usize, c: char) -> (r: Option<usize>)
    requires
        from <= to <= v@.len(),
    ensures
        r == (match rfind_char(v@.subrange(from as int, to as int), c) {
            Some(i) => Some((i + from) as usize),
            None => None::<usize>,
        }),
{
    let mut e = to;
    while e > from
        invariant
            from <= e <= to <= v@.len(),
            rfind_char(v@.subrange(from as int, to as int), c) == rfind_char(
                v@.subrange(from as int, e as int),
                c,
            ),
        decreases e - from,
    {
        if v[e - 1] == c {
            return Some(e - 1);
        }
        assert(v@.subrange(from as int, e as int).drop_last() == v@.subrange(from as int, e - 1));
        e -= 1;
    }
    None
}

/// Whether `v[from..to]` holds exactly the characters of `w`.
pub fn range_equals(v: &Vec<char>, from: usize, to: usize, w: &Vec<char>) -> (r: bool)
    requires
        from <= to <= v@.len(),
    ensures
        r == (v@.subrange(from as int, to as int) == w@),
{
    if to - from != w.len() {
        return false;
    }
    let mut i: usize = 0;
    while i < w.len()
        invariant
            to - from == w@.len(),
            from <= to <= v@.len(),
            i <= w@.len(),
            forall|j: int| 0 <= j < i ==> v@[from + j] == w@[j],
        decreases w@.len() - i,
    {
        if v[from + i] != w[i] {
            assert(v@.subrange(from as int, to as int)[i as int] != w@[i as int]);
            return false;
        }
        i += 1;
    }
    assert(v@.subrange(from as int, to as int) =~= w@);
    true
}

} // verus!

verus! {

/// Whether two string slices hold the same characters.
pub fn str_eq(a: &str, b: &str) -> (r: bool)
    ensures
        r == (a@ == b@),
{
    let va = chars_of(a);
    let vb = chars_of(b);
    assert(va@.subrange(0, va@.len() as int) == va@);
    range_equals(&va, 0, va.len(), &vb)
}

} // verus!

verus! {

/// The strings of a list, each by its characters.
pub open spec fn strings_view(v: Seq<String>) -> Seq<Seq<char>> {
    v.map_values(|s: String| s@)
}

/// A copy of a list of strings.
pub fn clone_strings(v: &Vec<String>) -> (r: Vec<String>)
    ensures
        r@ == v@,
{
    let mut r: Vec<String> = Vec::new();
    let mut i: usize = 0;
    while i < v.len()
        invariant
            i <= v@.len(),
            r@ == v@.take(i as int),
        decreases v@.len() - i,
    {
        r.push(v[i].clone());
        assert(v@.take(i + 1) == v@.take(i as int).push(v@[i as int]));
        i += 1;
    }
    assert(v@.take(v@.len() as int) == v@);
    r
}

/// A copy of an optional string.
pub fn clone_opt_string(o: &Option<String>) -> (r: Option<String>)
    ensures
        r == *o,
{
    match o {
        Some(s) => Some(s.clone()),
        None => None,
    }
}

} // verus!

verus! {

/// `a` comes before `b` when their characters are compared in turn by code
/// point, a proper prefix coming first: the order of `str`'s `Ord`, whose
/// byte-wise comparison of UTF-8 keeps the order of code points.
pub open spec fn str_lt(a: Seq<char>, b: Seq<char>) -> bool
    decreases a.len(),
{
    if a.len() == 0 {
        b.len() > 0
    } else if b.len() == 0 {
        false
    } else if a[0] != b[0] {
        (a[0] as u32) < (b[0] as u32)
    } else {
        str_lt(a.drop_first(), b.drop_first())
    }
}

/// No string comes before itself, and of two strings at most one comes first.
pub proof fn lemma_str_lt_asymmetric(a: Seq<char>, b: Seq<char>)
    ensures
        !(str_lt(a, b) && str_lt(b, a)),
        !str_lt(a, a),
    decreases a.len(),
{
    if a.len() > 0 && b.len() > 0 {
        lemma_str_lt_asymmetric(a.drop_first(), b.drop_first());
    }
    if a.len() > 0 {
        lemma_str_lt_asymmetric(a.drop_first(), a.drop_first());
    }
}

/// The order is transitive.
pub proof fn lemma_str_lt_transitive(a: Seq<char>, b: Seq<char>, c: Seq<char>)
    requires
        str_lt(a, b),
        str_lt(b, c),
    ensures
        str_lt(a, c),
    decreases a.len(),
{
    if a.len() > 0 && b.len() > 0 && c.len() > 0 && a[0] == b[0] && b[0] == c[0] {
        lemma_str_lt_transitive(a.drop_first(), b.drop_first(), c.drop_first());
    }
}

/// Of two different strings one comes first.
pub proof fn lemma_str_lt_total(a: Seq<char>, b: Seq<char>)
    requires
        a != b,
    ensures
        str_lt(a, b) || str_lt(b, a),
    decreases a.len(),
{
    if a.len() > 0 && b.len() > 0 {
        vstd::utf8::char_u32_cast(a[0], a[0] as u32);
        vstd::utf8::char_u32_cast(b[0], b[0] as u32);
    }
    if a.len() > 0 && b.len() > 0 && a[0] == b[0] {
        if a.drop_first() == b.drop_first() {
            assert(a =~= seq![a[0]] + a.drop_first());
            assert(b =~= seq![b[0]] + b.drop_first());
        }
        lemma_str_lt_total(a.drop_first(), b.drop_first());
    }
    if a.len() == 0 && b.len() == 0 {
        assert(a =~= b);
    }
}

/// Whether `a` comes before `b` (see `str_lt`).
pub fn str_less(a: &str, b: &str) -> (r: bool)
    ensures
        r == str_lt(a@, b@),
{
    let va = chars_of(a);
    let vb = chars_of(b);
    let mut i: usize = 0;
    assert(va@.skip(0) == va@);
    assert(vb@.skip(0) == vb@);
    while i < va.len() && i < vb.len()
        invariant
            i <= va@.len(),
            i <= vb@.len(),
            va@ == a@,
            vb@ == b@,
            str_lt(va@, vb@) == str_lt(va@.skip(i as int), vb@.skip(i as int)),
        decreases va@.len() - i,
    {
        assert(va@.skip(i as int)[0] == va@[i as int]);
        assert(vb@.skip(i as int)[0] == vb@[i as int]);
        if va[i] != vb[i] {
            return (va[i] as u32) < (vb[i] as u32);
        }
        assert(va@.skip(i as int).drop_first() == va@.skip(i + 1));
        assert(vb@.skip(i as int).drop_first() == vb@.skip(i + 1));
        i += 1;
    }
    i < vb.len() && i == va.len()
}

/// Each string comes before the next: sorted, without repetition.
pub open spec fn strictly_sorted(v: Seq<Seq<char>>) -> bool {
    forall|i: int, j: int| 0 <= i < j < v.len() ==> str_lt(#[trigger] v[i], #[trigger] v[j])
}

/// Adds a string to a sorted list of distinct strings, where it belongs,
/// unless the list already holds it.
pub fn insert_sorted(v: &mut Vec<String>, s: String)
    requires
        strictly_sorted(strings_view(old(v)@)),
    ensures
        strictly_sorted(strings_view(final(v)@)),
        strings_view(final(v)@).to_set() == strings_view(old(v)@).to_set().insert(s@),
{
    let ghost o = strings_view(v@);
    let mut k: usize = 0;
    while k < v.len() && str_less(v[k].as_str(), s.as_str())
        invariant
            k <= v@.len(),
            o == strings_view(v@),
            forall|i: int| 0 <= i < k ==> str_lt(#[trigger] o[i], s@),
        decreases v@.len() - k,
    {
        k += 1;
    }
    if k < v.len() && str_eq(v[k].as_str(), s.as_str()) {
        assert(o.to_set() =~= o.to_set().insert(s@)) by {
            assert(o[k as int] == s@);
        }
        return;
    }
    proof {
        if k < o.len() {
            assert(!str_lt(o[k as int], s@));
            lemma_str_lt_total(o[k as int], s@);
        }
    }
    let ghost sv = s@;
    v.insert(k, s);
    proof {
        let n = strings_view(v@);
        assert(n =~= o.insert(k as int, sv));
        assert forall|i: int, j: int| 0 <= i < j < n.len() implies str_lt(#[trigger] n[i], #[trigger] n[j]) by {
            if j < k {
                assert(n[i] == o[i] && n[j] == o[j]);
            } else if j == k {
                assert(n[i] == o[i]);
            } else if i == k {
                assert(n[j] == o[j - 1]);
                if j - 1 > k {
                    lemma_str_lt_transitive(sv, o[k as int], o[j - 1]);
                }
            } else if i < k {
                assert(n[i] == o[i] && n[j] == o[j - 1]);
                lemma_str_lt_transitive(o[i], sv, o[k as int]);
                if j - 1 > k {
                    lemma_str_lt_transitive(o[i], o[k as int], o[j - 1]);
                }
            } else {
                assert(n[i] == o[i - 1] && n[j] == o[j - 1]);
            }
        }
        assert forall|x: Seq<char>| n.to_set().contains(x) == o.to_set().insert(sv).contains(x) by {
            if n.contains(x) {
                let j = choose|j: int| 0 <= j < n.len() && n[j] == x;
                if j < k {
                    assert(o[j] == x);
                } else if j > k {
                    assert(o[j - 1] == x);
                }
            }
            if o.contains(x) {
                let j = choose|j: int| 0 <= j < o.len() && o[j] == x;
                if j < k {
                    assert(n[j] == x);
                } else {
                    assert(n[j + 1] == x);
                }
            }
            if x == sv {
                assert(n[k as int] == x);
            }
        }
        assert(n.to_set() =~= o.to_set().insert(sv));
    }
}

} // verus!

verus! {

/// What `char::to_ascii_lowercase` gives: `A` to `Z` become `a` to `z`,
/// every other character stays.
pub open spec fn ascii_lower(c: char) -> char {
    if 'A' <= c <= 'Z' {
        ((c as int) + 32) as char
    } else {
        c
    }
}

/// The ASCII lowercase of a character (see `ascii_lower`).
pub fn to_ascii_lowercase(c: char) -> (r: char)
    ensures
        r == ascii_lower(c),
{
    if 'A' <= c && c <= 'Z' {
        ((c as u8) + 32) as char
    } else {
        c
    }
}

/// The pieces of a text between the occurrences of `c`, as `str::split`
/// gives them (a text without `c` is one piece; a final `c` ends with an
/// empty piece).
pub open spec fn split_char(s: Seq<char>, c: char) -> Seq<Seq<char>>
    decreases s.len(),
{
    if s.len() == 0 {
        seq![Seq::<char>::empty()]
    } else {
        let r = split_char(s.drop_last(), c);
        if s.last() == c {
            r.push(Seq::<char>::empty())
        } else {
            r.update(r.len() - 1, r.last().push(s.last()))
        }
    }
}

proof fn lemma_split_char_nonempty(s: Seq<char>, c: char)
    ensures
        split_char(s, c).len() > 0,
    decreases s.len(),
{
    if s.len() > 0 {
        lemma_split_char_nonempty(s.drop_last(), c);
    }
}

/// The pieces of a text between the occurrences of `c` (`str::split`).
pub fn split_on(s: &str, c: char) -> (r: Vec<String>)
    ensures
        strings_view(r@) == split_char(s@, c),
{
    let v = chars_of(s);
    let mut done: Vec<String> = Vec::new();
    let mut cur = String::new();
    let mut i: usize = 0;
    assert(v@.take(0) =~= Seq::<char>::empty());
    while i < v.len()
        invariant
            i <= v@.len(),
            v@ == s@,
            strings_view(done@).push(cur@) == split_char(v@.take(i as int), c),
        decreases v@.len() - i,
    {
        let ghost prev = split_char(v@.take(i as int), c);
        proof {
            lemma_split_char_nonempty(v@.take(i as int), c);
            assert(v@.take(i + 1).drop_last() == v@.take(i as int));
            assert(v@.take(i + 1).last() == v@[i as int]);
        }
        if v[i] == c {
            let line = cur;
            cur = String::new();
            let ghost before = done@;
            done.push(line);
            assert(strings_view(done@) =~= strings_view(before).push(line@));
            assert(strings_view(done@).push(cur@) =~= prev.push(Seq::<char>::empty()));
        } else {
            push_char(&mut cur, v[i]);
            assert(strings_view(done@).push(cur@) =~= prev.update(prev.len() - 1, prev.last().push(v@[i as int])));
        }
        i += 1;
    }
    assert(v@.take(i as int) == v@);
    let ghost pieces = strings_view(done@).push(cur@);
    done.push(cur);
    assert(strings_view(done@) =~= pieces);
    done
}

/// The strings joined with `sep` between them (`[T]::join`).
pub open spec fn join_with(parts: Seq<Seq<char>>, sep: Seq<char>) -> Seq<char>
    decreases parts.len(),
{
    if parts.len() == 0 {
        Seq::<char>::empty()
    } else if parts.len() == 1 {
        parts[0]
    } else {
        join_with(parts.drop_last(), sep) + sep + parts.last()
    }
}

/// The strings joined with `sep` between them.
pub fn join(parts: &Vec<String>, sep: &str) -> (r: String)
    ensures
        r@ == join_with(strings_view(parts@), sep@),
{
    let ghost ps = strings_view(parts@);
    let mut r = String::new();
    let mut i: usize = 0;
    assert(ps.take(0) =~= Seq::<Seq<char>>::empty());
    while i < parts.len()
        invariant
            i <= parts@.len(),
            ps == strings_view(parts@),
            r@ == join_with(ps.take(i as int), sep@),
        decreases parts@.len() - i,
    {
        assert(ps.take(i + 1).drop_last() == ps.take(i as int));
        assert(ps.take(i + 1).last() == parts@[i as int]@);
        if i > 0 {
            push_str(&mut r, sep);
        } else {
            assert(ps.take(1)[0] == parts@[0]@);
        }
        push_str(&mut r, parts[i].as_str());
        i += 1;
    }
    assert(ps.take(i as int) == ps);
    r
}

} // verus!

verus! {

/// What `String::from_utf8_lossy` gives for a byte string.
pub uninterp spec fn utf8_lossy(bytes: Seq<u8>) -> Seq<char>;

/// Calls `String::from_utf8_lossy`: the text the bytes hold, each invalid
/// sequence replaced by U+FFFD; it is empty exactly when the bytes are.
#[verifier::external_body]
pub(crate) fn from_utf8_lossy(bytes: &[u8]) -> (r: String)
    ensures
        r@ == utf8_lossy(bytes@),
        r@.len() == 0 <==> bytes@.len() == 0,
{
    String::from_utf8_lossy(bytes).into_owned()
}

/// The pieces of a byte string between the occurrences of `b` (`[u8]::split`).
pub open spec fn split_bytes(s: Seq<u8>, b: u8) -> Seq<Seq<u8>>
    decreases s.len(),
{
    if s.len() == 0 {
        seq![Seq::<u8>::empty()]
    } else {
        let r = split_bytes(s.drop_last(), b);
        if s.last() == b {
            r.push(Seq::<u8>::empty())
        } else {
            r.update(r.len() - 1, r.last().push(s.last()))
        }
    }
}

proof fn lemma_split_bytes_nonempty(s: Seq<u8>, b: u8)
    ensures
        split_bytes(s, b).len() > 0,
    decreases s.len(),
{
    if s.len() > 0 {
        lemma_split_bytes_nonempty(s.drop_last(), b);
    }
}

/// The pieces of a byte string between the occurrences of `b`.
pub fn split_bytes_on(s: &[u8], b: u8) -> (r: Vec<Vec<u8>>)
    ensures
        r@.map_values(|p: Vec<u8>| p@) == split_bytes(s@, b),
{
    let mut done: Vec<Vec<u8>> = Vec::new();
    let mut cur: Vec<u8> = Vec::new();
    let mut i: usize = 0;
    assert(s@.take(0) =~= Seq::<u8>::empty());
    while i < s.len()
        invariant
            i <= s@.len(),
            done@.map_values(|p: Vec<u8>| p@).push(cur@) == split_bytes(s@.take(i as int), b),
        decreases s@.len() - i,
    {
        let ghost prev = split_bytes(s@.take(i as int), b);
        proof {
            lemma_split_bytes_nonempty(s@.take(i as int), b);
            assert(s@.take(i + 1).drop_last() == s@.take(i as int));
            assert(s@.take(i + 1).last() == s@[i as int]);
        }
        if s[i] == b {
            let piece = cur;
            cur = Vec::new();
            let ghost before = done@;
            done.push(piece);
            assert(done@.map_values(|p: Vec<u8>| p@) =~= before.map_values(|p: Vec<u8>| p@).push(piece@));
            assert(done@.map_values(|p: Vec<u8>| p@).push(cur@) =~= prev.push(Seq::<u8>::empty()));
        } else {
            cur.push(s[i]);
            assert(done@.map_values(|p: Vec<u8>| p@).push(cur@) =~= prev.update(prev.len() - 1, prev.last().push(s@[i as int])));
        }
        i += 1;
    }
    assert(s@.take(i as int) == s@);
    let ghost pieces = done@.map_values(|p: Vec<u8>| p@).push(cur@);
    done.push(cur);
    assert(done@.map_values(|p: Vec<u8>| p@) =~= pieces);
    done
}

} // verus!

verus! {

/// Joining the pieces of a text split at `c` with `c` gives the text back.
pub proof fn lemma_join_split(s: Seq<char>, c: char)
    ensures
        join_with(split_char(s, c), seq![c]) == s,
    decreases s.len(),
{
    if s.len() > 0 {
        let t = s.drop_last();
        lemma_join_split(t, c);
        lemma_split_char_nonempty(t, c);
        let r = split_char(t, c);
        if s.last() == c {
            let n = r.push(Seq::<char>::empty());
            assert(n.drop_last() == r);
            assert(join_with(n, seq![c]) == join_with(r, seq![c]) + seq![c] + Seq::<char>::empty());
            assert(s =~= t + seq![c] + Seq::<char>::empty());
        } else {
            let n = r.update(r.len() - 1, r.last().push(s.last()));
            if r.len() == 1 {
                assert(join_with(r, seq![c]) == r[0]);
                assert(n[0] == r[0].push(s.last()));
                assert(s =~= t.push(s.last()));
            } else {
                assert(n.drop_last() =~= r.drop_last());
                assert(join_with(r, seq![c]) == join_with(r.drop_last(), seq![c]) + seq![c] + r.last());
                assert(join_with(n, seq![c]) == join_with(n.drop_last(), seq![c]) + seq![c] + n.last());
                assert(n.last() == r.last().push(s.last()));
                assert(join_with(n, seq![c]) =~= join_with(r, seq![c]).push(s.last()));
                assert(s =~= t.push(s.last()));
            }
        }
    }
}

/// No piece of a text split at `c` holds `c`.
pub proof fn lemma_split_pieces_lack(s: Seq<char>, c: char)
    ensures
        forall|i: int, j: int| 0 <= i < split_char(s, c).len() && 0 <= j < split_char(s, c)[i].len()
            ==> split_char(s, c)[i][j] != c,
    decreases s.len(),
{
    if s.len() > 0 {
        lemma_split_pieces_lack(s.drop_last(), c);
        lemma_split_char_nonempty(s.drop_last(), c);
    }
}

} // verus!

verus! {

/// The first position of `sep` in `s` (`sep` not empty).
pub open spec fn find_sub(s: Seq<char>, sep: Seq<char>) -> Option<int>
    decreases s.len(),
{
    if sep.len() == 0 || s.len() < sep.len() {
        None
    } else if s.take(sep.len() as int) == sep {
        Some(0)
    } else {
        match find_sub(s.drop_first(), sep) {
            Some(i) => Some(i + 1),
            None => None,
        }
    }
}

/// A found position is where `sep` starts, inside `s`.
pub proof fn lemma_find_sub(s: Seq<char>, sep: Seq<char>)
    ensures
        find_sub(s, sep) matches Some(i) ==> 0 <= i && i + sep.len() <= s.len() && sep.len() > 0
            && s.subrange(i, i + sep.len()) == sep,
    decreases s.len(),
{
    if sep.len() > 0 && s.len() >= sep.len() && s.take(sep.len() as int) != sep {
        lemma_find_sub(s.drop_first(), sep);
        if let Some(i) = find_sub(s.drop_first(), sep) {
            assert(s.subrange(i + 1, i + 1 + sep.len()) =~= s.drop_first().subrange(i, i + sep.len()));
        }
    }
}

/// The pieces of a text between the occurrences of `sep`, as `str::split`
/// gives them: an empty separator splits before and after each character.
pub open spec fn split_str(s: Seq<char>, sep: Seq<char>) -> Seq<Seq<char>>
    decreases s.len(),
{
    if sep.len() == 0 {
        seq![Seq::<char>::empty()] + s.map_values(|c: char| seq![c]) + seq![Seq::<char>::empty()]
    } else {
        match find_sub(s, sep) {
            Some(i) => {
                proof {
                    lemma_find_sub(s, sep);
                }
                seq![s.take(i)] + split_str(s.skip(i + sep.len()), sep)
            },
            None => seq![s],
        }
    }
}

/// Where `sep` first occurs in `v[from..]`.
fn find_sub_from(v: &Vec<char>, from: usize, sep: &Vec<char>) -> (r: Option<usize>)
    requires
        from <= v@.len(),
        sep@.len() > 0,
    ensures
        r == (match find_sub(v@.skip(from as int), sep@) {
            Some(i) => Some((i + from) as usize),
            None => None::<usize>,
        }),
{
    let mut i = from;
    while i < v.len()
        invariant
            from <= i <= v@.len(),
            sep@.len() > 0,
            find_sub(v@.skip(from as int), sep@) == (match find_sub(v@.skip(i as int), sep@) {
                Some(k) => Some(k + (i - from)),
                None => None::<int>,
            }),
        decreases v@.len() - i,
    {
        if v.len() - i < sep.len() {
            assert(v@.skip(i as int).len() < sep@.len());
            return None;
        }
        if range_equals(v, i, i + sep.len(), sep) {
            assert(v@.skip(i as int).take(sep@.len() as int) == v@.subrange(i as int, i + sep@.len()));
            return Some(i);
        }
        assert(v@.skip(i as int).take(sep@.len() as int) == v@.subrange(i as int, i + sep@.len()));
        assert(v@.skip(i as int).drop_first() == v@.skip(i + 1));
        i += 1;
    }
    assert(v@.skip(i as int).len() == 0);
    None
}

/// The pieces of a text between the occurrences of `sep` (`str::split`).
pub fn split_str_on(s: &str, sep: &str) -> (r: Vec<String>)
    ensures
        strings_view(r@) == split_str(s@, sep@),
{
    let v = chars_of(s);
    let sv = chars_of(sep);
    let mut r: Vec<String> = Vec::new();
    if sv.len() == 0 {
        r.push(String::new());
        let mut i: usize = 0;
        while i < v.len()
            invariant
                i <= v@.len(),
                v@ == s@,
                strings_view(r@) == seq![Seq::<char>::empty()] + v@.take(i as int).map_values(|c: char| seq![c]),
            decreases v@.len() - i,
        {
            let mut one = String::new();
            push_char(&mut one, v[i]);
            let ghost before = r@;
            r.push(one);
            assert(strings_view(r@) =~= strings_view(before).push(seq![v@[i as int]]));
            assert(v@.take(i + 1).map_values(|c: char| seq![c]) =~= v@.take(i as int).map_values(|c: char| seq![c]).push(seq![v@[i as int]]));
            i += 1;
        }
        let ghost before = r@;
        r.push(String::new());
        assert(v@.take(i as int) == v@);
        assert(strings_view(r@) =~= strings_view(before).push(Seq::<char>::empty()));
        return r;
    }
    let mut pos: usize = 0;
    assert(v@.skip(0) == v@);
    while pos <= v.len()
        invariant
            pos <= v@.len(),
            v@ == s@,
            sv@ == sep@,
            sv@.len() > 0,
            split_str(s@, sep@) == strings_view(r@) + split_str(v@.skip(pos as int), sep@),
        decreases v@.len() - pos,
    {
        match find_sub_from(&v, pos, &sv) {
            Some(i) => {
                proof {
                    lemma_find_sub(v@.skip(pos as int), sv@);
                }
                let piece = string_of(&v, pos, i);
                let ghost rest = v@.skip(pos as int);
                let ghost k = (i - pos) as int;
                assert(rest.take(k) =~= v@.subrange(pos as int, i as int));
                assert(rest.skip(k + sv@.len()) =~= v@.skip(i + sv@.len()));
                let ghost before = r@;
                r.push(piece);
                assert(strings_view(r@) =~= strings_view(before).push(piece@));
                assert(split_str(rest, sep@) == seq![rest.take(k)] + split_str(rest.skip(k + sv@.len()), sep@));
                assert(strings_view(before) + split_str(rest, sep@) =~= strings_view(r@) + split_str(v@.skip(i + sv@.len()), sep@));
                pos = i + sv.len();
            },
            None => {
                let piece = string_of(&v, pos, v.len());
                let ghost rest = v@.skip(pos as int);
                assert(rest =~= v@.subrange(pos as int, v@.len() as int));
                let ghost before = r@;
                r.push(piece);
                assert(strings_view(r@) =~= strings_view(before) + split_str(rest, sep@));
                return r;
            },
        }
    }
    r
}

} // verus!
