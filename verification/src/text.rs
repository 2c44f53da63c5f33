//! Text as sequences of characters.
//!
//! A `String` or `&str` is modelled by its sequence of characters. The spec
//! functions here say what searching, splitting, trimming and rewriting mean
//! on such sequences; the executable functions beside them compute the same.
use vstd::prelude::*;

verus! {

/// `String::push` appends the character to the end of the string.
pub assume_specification[ String::push ](s: &mut String, c: char)
    ensures
        final(s)@ == old(s)@.push(c),
;

// ---------------------------------------------------------------------------
// Views of containers of text

/// The texts of a sequence of strings.
pub open spec fn views(v: Seq<String>) -> Seq<Seq<char>> {
    v.map_values(|s: String| s@)
}

/// The text of an optional string.
pub open spec fn opt_view(o: Option<String>) -> Option<Seq<char>> {
    match o {
        Some(s) => Some(s@),
        None => None,
    }
}

/// Copies a list of strings.
pub fn clone_strings(v: &Vec<String>) -> (r: Vec<String>)
    ensures
        views(r@) == views(v@),
{
    let mut out: Vec<String> = Vec::new();
    for i in 0..v.len()
        invariant
            views(out@) == views(v@.take(i as int)),
    {
        let ghost before = out@;
        out.push(v[i].clone());
        proof {
            assert(views(out@) =~= views(before).push(v@[i as int]@));
            assert(views(v@.take(i + 1)) =~= views(v@.take(i as int)).push(v@[i as int]@));
        }
    }
    assert(v@.take(v@.len() as int) =~= v@);
    out
}

/// The texts of a list of pairs of strings.
pub open spec fn pair_views(v: Seq<(String, String)>) -> Seq<(Seq<char>, Seq<char>)> {
    v.map_values(|p: (String, String)| (p.0@, p.1@))
}

/// Copies a list of pairs of strings.
pub fn clone_pairs(v: &Vec<(String, String)>) -> (r: Vec<(String, String)>)
    ensures
        pair_views(r@) == pair_views(v@),
{
    let mut out: Vec<(String, String)> = Vec::new();
    for i in 0..v.len()
        invariant
            out@.len() == i,
            forall|j: int|
                0 <= j < i ==> (#[trigger] out@[j]).0@ == v@[j].0@ && out@[j].1@ == v@[j].1@,
    {
        out.push((v[i].0.clone(), v[i].1.clone()));
    }
    assert(pair_views(out@) =~= pair_views(v@));
    out
}

/// Copies an optional string.
pub fn clone_opt(o: &Option<String>) -> (r: Option<String>)
    ensures
        opt_view(r) == opt_view(*o),
{
    match o {
        Some(s) => Some(s.clone()),
        None => None,
    }
}

/// Whether a list of strings holds a text.
pub fn has_string(v: &Vec<String>, s: &str) -> (r: bool)
    ensures
        r == views(v@).contains(s@),
{
    let ghost all = views(v@);
    for i in 0..v.len()
        invariant
            all == views(v@),
            forall|j: int| 0 <= j < i ==> all[j] != s@,
    {
        assert(all[i as int] == v@[i as int]@);
        if same(&v[i], s) {
            return true;
        }
    }
    false
}

/// A list of one text where `present`, else the empty list.
pub open spec fn one_if(present: bool, s: Seq<char>) -> Seq<Seq<char>> {
    if present {
        seq![s]
    } else {
        seq![]
    }
}

// ---------------------------------------------------------------------------
// Character classes

/// The characters with Unicode's White_Space property.
pub open spec fn white_space(c: char) -> bool {
    let n = c as u32;
    ||| 0x9 <= n <= 0xd
    ||| n == 0x20
    ||| n == 0x85
    ||| n == 0xa0
    ||| n == 0x1680
    ||| 0x2000 <= n <= 0x200a
    ||| n == 0x2028
    ||| n == 0x2029
    ||| n == 0x202f
    ||| n == 0x205f
    ||| n == 0x3000
}

/// Whether `c` has the White_Space property.
pub fn is_white_space(c: char) -> (r: bool)
    ensures
        r == white_space(c),
{
    let n = c as u32;
    (0x9 <= n && n <= 0xd) || n == 0x20 || n == 0x85 || n == 0xa0 || n == 0x1680 || (0x2000 <= n
        && n <= 0x200a) || n == 0x2028 || n == 0x2029 || n == 0x202f || n == 0x205f || n == 0x3000
}

/// `'0'..='9'`.
pub open spec fn ascii_digit(c: char) -> bool {
    '0' <= c && c <= '9'
}

/// `'a'..='z'` or `'A'..='Z'`.
pub open spec fn ascii_letter(c: char) -> bool {
    ('a' <= c && c <= 'z') || ('A' <= c && c <= 'Z')
}

/// An ASCII letter or digit.
pub open spec fn ascii_alnum(c: char) -> bool {
    ascii_letter(c) || ascii_digit(c)
}

/// `'0'..='9'`, `'a'..='f'` or `'A'..='F'`.
pub open spec fn ascii_hex_digit(c: char) -> bool {
    ascii_digit(c) || ('a' <= c && c <= 'f') || ('A' <= c && c <= 'F')
}

/// Whether `c` is an ASCII digit.
pub fn is_digit(c: char) -> (r: bool)
    ensures
        r == ascii_digit(c),
{
    '0' <= c && c <= '9'
}

/// Whether `c` is an ASCII letter.
pub fn is_letter(c: char) -> (r: bool)
    ensures
        r == ascii_letter(c),
{
    ('a' <= c && c <= 'z') || ('A' <= c && c <= 'Z')
}

/// Whether `c` is an ASCII letter or digit.
pub fn is_alnum(c: char) -> (r: bool)
    ensures
        r == ascii_alnum(c),
{
    is_letter(c) || is_digit(c)
}

/// Whether `c` is an ASCII hexadecimal digit.
pub fn is_hex_digit(c: char) -> (r: bool)
    ensures
        r == ascii_hex_digit(c),
{
    is_digit(c) || ('a' <= c && c <= 'f') || ('A' <= c && c <= 'F')
}

/// The lower-case form of an ASCII capital; any other character unchanged.
pub open spec fn lower(c: char) -> char {
    if 'A' <= c && c <= 'Z' {
        ((c as u8) + 32) as char
    } else {
        c
    }
}

/// The upper-case form of an ASCII small letter; any other character unchanged.
pub open spec fn upper(c: char) -> char {
    if 'a' <= c && c <= 'z' {
        ((c as u8) - 32) as char
    } else {
        c
    }
}

/// Lower-cases an ASCII capital.
pub fn to_lower(c: char) -> (r: char)
    ensures
        r == lower(c),
{
    if 'A' <= c && c <= 'Z' {
        let n = c as u8;
        (n + 32) as char
    } else {
        c
    }
}

/// Upper-cases an ASCII small letter.
pub fn to_upper(c: char) -> (r: char)
    ensures
        r == upper(c),
{
    if 'a' <= c && c <= 'z' {
        let n = c as u8;
        (n - 32) as char
    } else {
        c
    }
}

// ---------------------------------------------------------------------------
// Between strings and characters

/// The characters of a string, in order.
pub fn chars_of(s: &str) -> (r: Vec<char>)
    ensures
        r@ == s@,
{
    let mut v: Vec<char> = Vec::new();
    for c in it: s.chars()
        invariant
            v@ == it.seq().take(it.index@),
            it.seq() == s@,
    {
        v.push(c);
    }
    v
}

/// The string made of the characters of `v` from `from` up to, not including, `to`.
pub fn text_of(v: &Vec<char>, from: usize, to: usize) -> (r: String)
    requires
        from <= to <= v.len(),
    ensures
        r@ == v@.subrange(from as int, to as int),
{
    let mut out = String::new();
    for i in from..to
        invariant
            from <= i <= to <= v.len(),
            out@ == v@.subrange(from as int, i as int),
    {
        out.push(v[i]);
        assert(out@ =~= v@.subrange(from as int, i + 1));
    }
    out
}

/// Whether two strings hold the same characters.
pub fn same(a: &str, b: &str) -> (r: bool)
    ensures
        r == (a@ == b@),
{
    a.to_owned() == b.to_owned()
}

/// One string after another.
pub fn concat2(a: &str, b: &str) -> (r: String)
    ensures
        r@ == a@ + b@,
{
    let mut out = a.to_owned();
    out.append(b);
    out
}

/// Three strings, one after another.
pub fn concat3(a: &str, b: &str, c: &str) -> (r: String)
    ensures
        r@ == a@ + b@ + c@,
{
    let mut out = a.to_owned();
    out.append(b);
    out.append(c);
    out
}

// ---------------------------------------------------------------------------
// Searching

/// The first position at or after `i` that holds `c`; the length where none does.
pub open spec fn find_char(s: Seq<char>, c: char, i: int) -> int
    decreases s.len() - i,
{
    if i < 0 || i >= s.len() {
        s.len() as int
    } else if s[i] == c {
        i
    } else {
        find_char(s, c, i + 1)
    }
}

/// What `find_char` finds: the first occurrence, or the length.
pub proof fn find_char_props(s: Seq<char>, c: char, i: int)
    requires
        0 <= i <= s.len(),
    ensures
        i <= find_char(s, c, i) <= s.len(),
        find_char(s, c, i) < s.len() ==> s[find_char(s, c, i)] == c,
        forall|k: int| i <= k < find_char(s, c, i) ==> s[k] != c,
    decreases s.len() - i,
{
    if i < s.len() && s[i] != c {
        find_char_props(s, c, i + 1);
    }
}

/// Position of the first `c` in `v` at or after `from`; the length where there is none.
pub fn find_char_from(v: &Vec<char>, c: char, from: usize) -> (r: usize)
    requires
        from <= v.len(),
    ensures
        r == find_char(v@, c, from as int),
        from <= r <= v.len(),
{
    let mut i: usize = from;
    while i < v.len() && v[i] != c
        invariant
            from <= i <= v.len(),
            find_char(v@, c, from as int) == find_char(v@, c, i as int),
        decreases v.len() - i,
    {
        i += 1;
    }
    i
}

/// Whether `pat` stands in `s` at position `i`.
pub open spec fn occurs_at(s: Seq<char>, pat: Seq<char>, i: int) -> bool {
    &&& 0 <= i
    &&& i + pat.len() <= s.len()
    &&& s.subrange(i, i + pat.len()) == pat
}

/// The first position at or after `i` where `pat` stands.
pub open spec fn find_text(s: Seq<char>, pat: Seq<char>, i: int) -> Option<int>
    decreases s.len() + 1 - i,
{
    if i < 0 || i + pat.len() > s.len() {
        None
    } else if occurs_at(s, pat, i) {
        Some(i)
    } else {
        find_text(s, pat, i + 1)
    }
}

/// What `find_text` finds: the first occurrence, if there is one.
pub proof fn find_text_props(s: Seq<char>, pat: Seq<char>, i: int)
    requires
        0 <= i,
    ensures
        find_text(s, pat, i) matches Some(k) ==> i <= k && occurs_at(s, pat, k) && (forall|j: int|
            i <= j < k ==> !occurs_at(s, pat, j)),
        find_text(s, pat, i) is None ==> forall|j: int| i <= j ==> !occurs_at(s, pat, j),
    decreases s.len() + 1 - i,
{
    if i + pat.len() <= s.len() && !occurs_at(s, pat, i) {
        find_text_props(s, pat, i + 1);
    }
}

/// Whether `pat` stands anywhere in `s`.
pub open spec fn contains_text(s: Seq<char>, pat: Seq<char>) -> bool {
    exists|i: int| occurs_at(s, pat, i)
}

/// Whether `pat` stands in `v` at position `i`.
pub fn is_at(v: &Vec<char>, pat: &Vec<char>, i: usize) -> (r: bool)
    requires
        i <= v.len(),
    ensures
        r == occurs_at(v@, pat@, i as int),
{
    if pat.len() > v.len() - i {
        return false;
    }
    let mut k: usize = 0;
    while k < pat.len()
        invariant
            k <= pat.len(),
            i + pat.len() <= v.len(),
            forall|j: int| 0 <= j < k ==> v@[i + j] == pat@[j],
        decreases pat.len() - k,
    {
        if v[i + k] != pat[k] {
            assert(v@.subrange(i as int, i + pat.len())[k as int] != pat@[k as int]);
            return false;
        }
        k += 1;
    }
    assert(v@.subrange(i as int, i + pat.len()) =~= pat@);
    true
}

/// The first position at or after `from` where `pat` stands in `v`.
pub fn find_text_from(v: &Vec<char>, pat: &Vec<char>, from: usize) -> (r: Option<usize>)
    requires
        from <= v.len(),
    ensures
        match r {
            Some(k) => find_text(v@, pat@, from as int) == Some(k as int) && from <= k && k
                + pat.len() <= v.len(),
            None => find_text(v@, pat@, from as int) is None,
        },
{
    let mut i: usize = from;
    loop
        invariant
            from <= i <= v.len(),
            find_text(v@, pat@, from as int) == find_text(v@, pat@, i as int),
        decreases v.len() - i,
    {
        if pat.len() > v.len() - i {
            return None;
        }
        if is_at(v, pat, i) {
            return Some(i);
        }
        if i == v.len() {
            assert(find_text(v@, pat@, i + 1) is None);
            return None;
        }
        i += 1;
    }
}

/// Whether `pat` stands anywhere in `s`.
pub fn contains(s: &str, pat: &str) -> (r: bool)
    ensures
        r == contains_text(s@, pat@),
{
    let v = chars_of(s);
    let p = chars_of(pat);
    let r = find_text_from(&v, &p, 0);
    proof {
        find_text_props(s@, pat@, 0);
    }
    r.is_some()
}

/// Whether `s` begins with `pat`.
pub fn starts_with(s: &str, pat: &str) -> (r: bool)
    ensures
        r == pat@.is_prefix_of(s@),
{
    let v = chars_of(s);
    let p = chars_of(pat);
    is_at(&v, &p, 0)
}

/// Whether `s` ends with `pat`.
pub fn ends_with(s: &str, pat: &str) -> (r: bool)
    ensures
        r == pat@.is_suffix_of(s@),
{
    let v = chars_of(s);
    let p = chars_of(pat);
    if p.len() > v.len() {
        return false;
    }
    is_at(&v, &p, v.len() - p.len())
}

/// What follows `pat` at the beginning of `s`.
pub fn strip_prefix(s: &str, pat: &str) -> (r: Option<String>)
    ensures
        match r {
            Some(t) => s@ == pat@ + t@,
            None => !pat@.is_prefix_of(s@),
        },
{
    let v = chars_of(s);
    let p = chars_of(pat);
    if is_at(&v, &p, 0) {
        let t = text_of(&v, p.len(), v.len());
        assert(s@ =~= pat@ + t@);
        Some(t)
    } else {
        None
    }
}

/// What precedes `pat` at the end of `s`.
pub fn strip_suffix(s: &str, pat: &str) -> (r: Option<String>)
    ensures
        match r {
            Some(t) => s@ == t@ + pat@,
            None => !pat@.is_suffix_of(s@),
        },
{
    let v = chars_of(s);
    let p = chars_of(pat);
    if p.len() <= v.len() && is_at(&v, &p, v.len() - p.len()) {
        let t = text_of(&v, 0, v.len() - p.len());
        assert(s@ =~= t@ + pat@);
        Some(t)
    } else {
        None
    }
}

// ---------------------------------------------------------------------------
// Splitting

/// The parts before and after the first `sep`.
pub open spec fn split_first(s: Seq<char>, sep: char) -> Option<(Seq<char>, Seq<char>)> {
    let e = find_char(s, sep, 0);
    if e < s.len() {
        Some((s.take(e), s.skip(e + 1)))
    } else {
        None
    }
}

/// Splits at the first `sep`, which is left out.
pub fn split_once(s: &str, sep: char) -> (r: Option<(String, String)>)
    ensures
        match r {
            Some((a, b)) => split_first(s@, sep) == Some((a@, b@)),
            None => split_first(s@, sep) is None,
        },
{
    let v = chars_of(s);
    let e = find_char_from(&v, sep, 0);
    if e < v.len() {
        let a = text_of(&v, 0, e);
        let b = text_of(&v, e + 1, v.len());
        Some((a, b))
    } else {
        None
    }
}

/// The parts before and after the first occurrence of `sep`.
pub open spec fn split_at_text(s: Seq<char>, sep: Seq<char>) -> Option<(Seq<char>, Seq<char>)> {
    match find_text(s, sep, 0) {
        Some(k) => Some((s.take(k), s.skip(k + sep.len()))),
        None => None,
    }
}

/// Splits at the first occurrence of `sep`, which is left out.
pub fn split_once_text(s: &str, sep: &str) -> (r: Option<(String, String)>)
    ensures
        match r {
            Some((a, b)) => split_at_text(s@, sep@) == Some((a@, b@)),
            None => split_at_text(s@, sep@) is None,
        },
{
    let v = chars_of(s);
    let p = chars_of(sep);
    match find_text_from(&v, &p, 0) {
        Some(k) => {
            let a = text_of(&v, 0, k);
            let b = text_of(&v, k + p.len(), v.len());
            Some((a, b))
        },
        None => None,
    }
}

/// The last position before `n` that holds `c`.
pub open spec fn find_last(s: Seq<char>, c: char, n: int) -> Option<int>
    decreases n,
{
    if n <= 0 || n > s.len() {
        None
    } else if s[n - 1] == c {
        Some(n - 1)
    } else {
        find_last(s, c, n - 1)
    }
}

/// What `find_last` finds: the last occurrence, if there is one.
pub proof fn find_last_props(s: Seq<char>, c: char, n: int)
    requires
        0 <= n <= s.len(),
    ensures
        match find_last(s, c, n) {
            Some(k) => 0 <= k < n && s[k] == c && (forall|j: int| k < j < n ==> s[j] != c),
            None => forall|j: int| 0 <= j < n ==> s[j] != c,
        },
    decreases n,
{
    if n > 0 && s[n - 1] != c {
        find_last_props(s, c, n - 1);
    }
}

/// The parts before and after the last `sep`.
pub open spec fn split_last(s: Seq<char>, sep: char) -> Option<(Seq<char>, Seq<char>)> {
    match find_last(s, sep, s.len() as int) {
        Some(k) => Some((s.take(k), s.skip(k + 1))),
        None => None,
    }
}

/// Splits at the last `sep`, which is left out.
pub fn rsplit_once(s: &str, sep: char) -> (r: Option<(String, String)>)
    ensures
        match r {
            Some((a, b)) => split_last(s@, sep) == Some((a@, b@)),
            None => split_last(s@, sep) is None,
        },
{
    let v = chars_of(s);
    let mut n: usize = v.len();
    while n > 0
        invariant
            n <= v.len(),
            v@ == s@,
            find_last(s@, sep, s@.len() as int) == find_last(s@, sep, n as int),
        decreases n,
    {
        if v[n - 1] == sep {
            let a = text_of(&v, 0, n - 1);
            let b = text_of(&v, n, v.len());
            return Some((a, b));
        }
        n -= 1;
    }
    None
}

/// Joining two texts with a separator that the second does not hold, and
/// splitting at the last one, gives the two texts back.
pub proof fn split_last_of_joined(a: Seq<char>, b: Seq<char>, sep: char)
    requires
        !b.contains(sep),
    ensures
        split_last(a.push(sep) + b, sep) == Some((a, b)),
{
    let s = a.push(sep) + b;
    find_last_props(s, sep, s.len() as int);
    assert(s[a.len() as int] == sep);
    let k = find_last(s, sep, s.len() as int)->0;
    if k > a.len() {
        assert(s[k] == b[k - a.len() - 1]);
    }
    assert(s.take(a.len() as int) =~= a);
    assert(s.skip((a.len() + 1) as int) =~= b);
}

/// Joining two texts with a separator that the first does not hold, and
/// splitting at the first one, gives the two texts back.
pub proof fn split_first_of_joined(a: Seq<char>, b: Seq<char>, sep: char)
    requires
        !a.contains(sep),
    ensures
        split_first(a.push(sep) + b, sep) == Some((a, b)),
{
    let s = a.push(sep) + b;
    find_char_props(s, sep, 0);
    assert(s[a.len() as int] == sep);
    let k = find_char(s, sep, 0);
    if k < a.len() {
        assert(s[k] == a[k]);
    }
    assert(s.take(a.len() as int) =~= a);
    assert(s.skip((a.len() + 1) as int) =~= b);
}

/// The parts of `s` from `start` on, between occurrences of `sep`.
pub open spec fn split_from(s: Seq<char>, sep: char, start: int) -> Seq<Seq<char>>
    decreases s.len() - start,
    when 0 <= start <= s.len()
    via split_from_decreases
{
    let e = find_char(s, sep, start);
    if e >= s.len() {
        seq![s.skip(start)]
    } else {
        seq![s.subrange(start, e)] + split_from(s, sep, e + 1)
    }
}

#[via_fn]
proof fn split_from_decreases(s: Seq<char>, sep: char, start: int) {
    find_char_props(s, sep, start);
}

/// The parts of `s` between occurrences of `sep`.
pub open spec fn split_all(s: Seq<char>, sep: char) -> Seq<Seq<char>> {
    split_from(s, sep, 0)
}

/// A text without the separator is its own only part.
pub proof fn split_all_without(s: Seq<char>, sep: char)
    requires
        !s.contains(sep),
    ensures
        split_all(s, sep) == seq![s],
{
    find_char_props(s, sep, 0);
    let e = find_char(s, sep, 0);
    if e < s.len() {
        assert(s[e] == sep);
    }
    assert(s.skip(0) =~= s);
}

/// The parts of two texts joined by a separator are those of the first and then
/// those of the second.
pub proof fn split_all_of_joined(a: Seq<char>, b: Seq<char>, sep: char)
    ensures
        split_all(a.push(sep) + b, sep) == split_all(a, sep) + split_all(b, sep),
{
    split_from_of_joined(a, b, sep, 0);
}

proof fn split_from_of_joined(a: Seq<char>, b: Seq<char>, sep: char, start: int)
    requires
        0 <= start <= a.len(),
    ensures
        split_from(a.push(sep) + b, sep, start) == split_from(a, sep, start) + split_all(b, sep),
    decreases a.len() - start,
{
    let s = a.push(sep) + b;
    find_char_props(a, sep, start);
    find_char_props(s, sep, start);
    let e = find_char(a, sep, start);
    let f = find_char(s, sep, start);
    assert forall|k: int| 0 <= k < a.len() implies s[k] == a[k] by {}
    assert(s[a.len() as int] == sep);
    if e < a.len() {
        assert(s[e] == sep);
        assert(f == e) by {
            if f < e {
                assert(a[f] == s[f]);
            }
        }
        split_from_of_joined(a, b, sep, e + 1);
        assert(s.subrange(start, e) =~= a.subrange(start, e));
        assert(split_from(s, sep, start) =~= split_from(a, sep, start) + split_all(b, sep));
    } else {
        assert(f == a.len()) by {
            if f < a.len() {
                assert(a[f] == s[f]);
            }
        }
        assert(s.subrange(start, f) =~= a.skip(start));
        split_from_shift(b, s, sep, 0, f + 1);
        assert(split_from(s, sep, start) =~= split_from(a, sep, start) + split_all(b, sep));
    }
}

/// What stands at the end of a text is split as on its own.
proof fn split_from_shift(b: Seq<char>, s: Seq<char>, sep: char, i: int, off: int)
    requires
        0 <= i <= b.len(),
        0 <= off,
        s.len() == off + b.len(),
        forall|k: int| 0 <= k < b.len() ==> #[trigger] b[k] == s[off + k],
    ensures
        split_from(s, sep, off + i) == split_from(b, sep, i),
    decreases b.len() - i,
{
    find_char_props(b, sep, i);
    find_char_props(s, sep, off + i);
    let e = find_char(b, sep, i);
    let f = find_char(s, sep, off + i);
    assert(f == off + e) by {
        if e < b.len() {
            assert(b[e] == s[off + e]);
        }
        if f < off + e && f < s.len() {
            assert(b[f - off] == s[off + (f - off)]);
        }
    }
    if e < b.len() {
        split_from_shift(b, s, sep, e + 1, off);
        assert(s.subrange(off + i, f) =~= b.subrange(i, e));
    } else {
        assert(s.skip(off + i) =~= b.skip(i));
    }
}

/// Splits at every `sep`.
pub fn split(s: &str, sep: char) -> (r: Vec<String>)
    ensures
        views(r@) == split_all(s@, sep),
        r.len() > 0,
{
    let v = chars_of(s);
    let mut out: Vec<String> = Vec::new();
    let mut start: usize = 0;
    loop
        invariant
            start <= v.len(),
            v@ == s@,
            views(out@) + split_from(s@, sep, start as int) == split_all(s@, sep),
        decreases v.len() - start,
    {
        let e = find_char_from(&v, sep, start);
        let ghost before = out@;
        out.push(text_of(&v, start, e));
        proof {
            find_char_props(s@, sep, start as int);
            assert(views(out@) =~= views(before).push(s@.subrange(start as int, e as int)));
        }
        if e == v.len() {
            proof {
                assert(s@.subrange(start as int, e as int) =~= s@.skip(start as int));
                assert(views(out@) =~= views(before) + split_from(s@, sep, start as int));
            }
            return out;
        }
        proof {
            assert(views(out@) + split_from(s@, sep, e + 1) =~= views(before) + split_from(
                s@,
                sep,
                start as int,
            ));
        }
        start = e + 1;
    }
}

/// `line` without one carriage return at its end.
pub open spec fn strip_cr(line: Seq<char>) -> Seq<char> {
    if line.len() > 0 && line.last() == '\r' {
        line.drop_last()
    } else {
        line
    }
}

/// The lines of `s` from `start` on. A line ends at a line feed, which is left
/// out together with one carriage return before it; text after the last line
/// feed is a line of its own where there is any.
pub open spec fn lines_from(s: Seq<char>, start: int) -> Seq<Seq<char>>
    decreases s.len() - start,
    when 0 <= start <= s.len()
    via lines_from_decreases
{
    let e = find_char(s, '\n', start);
    if start == s.len() {
        seq![]
    } else if e >= s.len() {
        seq![s.skip(start)]
    } else {
        seq![strip_cr(s.subrange(start, e))] + lines_from(s, e + 1)
    }
}

#[via_fn]
proof fn lines_from_decreases(s: Seq<char>, start: int) {
    find_char_props(s, '\n', start);
}

/// The lines of `s`.
pub open spec fn lines_of(s: Seq<char>) -> Seq<Seq<char>> {
    lines_from(s, 0)
}

/// Splits into lines.
pub fn lines(s: &str) -> (r: Vec<String>)
    ensures
        views(r@) == lines_of(s@),
{
    let v = chars_of(s);
    let mut out: Vec<String> = Vec::new();
    let mut start: usize = 0;
    while start < v.len()
        invariant
            start <= v.len(),
            v@ == s@,
            views(out@) + lines_from(s@, start as int) == lines_of(s@),
        decreases v.len() - start,
    {
        let e = find_char_from(&v, '\n', start);
        let ghost before = out@;
        proof {
            find_char_props(s@, '\n', start as int);
        }
        if e == v.len() {
            out.push(text_of(&v, start, e));
            proof {
                assert(s@.subrange(start as int, e as int) =~= s@.skip(start as int));
                assert(views(out@) =~= views(before) + lines_from(s@, start as int));
            }
            return out;
        }
        let end: usize = if start < e && v[e - 1] == '\r' {
            e - 1
        } else {
            e
        };
        out.push(text_of(&v, start, end));
        proof {
            assert(s@.subrange(start as int, end as int) =~= strip_cr(
                s@.subrange(start as int, e as int),
            ));
            assert(views(out@) + lines_from(s@, e + 1) =~= views(before) + lines_from(
                s@,
                start as int,
            ));
        }
        start = e + 1;
    }
    assert(views(out@) =~= lines_of(s@));
    out
}

/// The first position at or after `i` whose character is white space exactly
/// if `white`; the length where there is none.
pub open spec fn find_white(s: Seq<char>, white: bool, i: int) -> int
    decreases s.len() - i,
{
    if i < 0 || i >= s.len() {
        s.len() as int
    } else if white_space(s[i]) == white {
        i
    } else {
        find_white(s, white, i + 1)
    }
}

/// What `find_white` finds: the first such character, or the length.
pub proof fn find_white_props(s: Seq<char>, white: bool, i: int)
    requires
        0 <= i <= s.len(),
    ensures
        i <= find_white(s, white, i) <= s.len(),
        find_white(s, white, i) < s.len() ==> white_space(s[find_white(s, white, i)]) == white,
        forall|k: int| i <= k < find_white(s, white, i) ==> white_space(s[k]) != white,
    decreases s.len() - i,
{
    if i < s.len() && white_space(s[i]) != white {
        find_white_props(s, white, i + 1);
    }
}

/// The first position at or after `from` whose character is white space
/// exactly if `white`; the length where there is none.
pub fn find_white_from(v: &Vec<char>, white: bool, from: usize) -> (r: usize)
    requires
        from <= v.len(),
    ensures
        r == find_white(v@, white, from as int),
        from <= r <= v.len(),
{
    let mut i: usize = from;
    while i < v.len() && is_white_space(v[i]) != white
        invariant
            from <= i <= v.len(),
            find_white(v@, white, from as int) == find_white(v@, white, i as int),
        decreases v.len() - i,
    {
        i += 1;
    }
    i
}

/// The words of `s` from `start` on: its longest stretches without white space.
pub open spec fn words_from(s: Seq<char>, start: int) -> Seq<Seq<char>>
    decreases s.len() - start,
    when 0 <= start <= s.len()
    via words_from_decreases
{
    let a = find_white(s, false, start);
    let e = find_white(s, true, a);
    if a >= s.len() {
        seq![]
    } else {
        seq![s.subrange(a, e)] + words_from(s, e)
    }
}

#[via_fn]
proof fn words_from_decreases(s: Seq<char>, start: int) {
    find_white_props(s, false, start);
    find_white_props(s, true, find_white(s, false, start));
}

/// The words of `s`.
pub open spec fn words_of(s: Seq<char>) -> Seq<Seq<char>> {
    words_from(s, 0)
}

/// Splits at white space.
pub fn words(s: &str) -> (r: Vec<String>)
    ensures
        views(r@) == words_of(s@),
{
    let v = chars_of(s);
    let mut out: Vec<String> = Vec::new();
    let mut start: usize = 0;
    loop
        invariant
            start <= v.len(),
            v@ == s@,
            views(out@) + words_from(s@, start as int) == words_of(s@),
        decreases v.len() - start,
    {
        let a = find_white_from(&v, false, start);
        if a == v.len() {
            assert(views(out@) =~= words_of(s@));
            return out;
        }
        let e = find_white_from(&v, true, a);
        let ghost before = out@;
        out.push(text_of(&v, a, e));
        proof {
            find_white_props(s@, false, start as int);
            find_white_props(s@, true, a as int);
            assert(views(out@) + words_from(s@, e as int) =~= views(before) + words_from(
                s@,
                start as int,
            ));
        }
        start = e;
    }
}

proof fn find_white_behind(p: Seq<char>, s: Seq<char>, white: bool, i: int)
    requires
        0 <= i <= s.len(),
    ensures
        find_white(p + s, white, p.len() + i) == p.len() + find_white(s, white, i),
    decreases s.len() - i,
{
    if i < s.len() {
        assert((p + s)[p.len() + i] == s[i]);
        if white_space(s[i]) != white {
            find_white_behind(p, s, white, i + 1);
        }
    }
}

proof fn words_behind(p: Seq<char>, s: Seq<char>, start: int)
    requires
        0 <= start <= s.len(),
    ensures
        words_from(p + s, p.len() + start) == words_from(s, start),
    decreases s.len() - start,
{
    let a = find_white(s, false, start);
    find_white_props(s, false, start);
    find_white_behind(p, s, false, start);
    if a < s.len() {
        let e = find_white(s, true, a);
        find_white_props(s, true, a);
        find_white_behind(p, s, true, a);
        assert((p + s).subrange(p.len() + a, p.len() + e) =~= s.subrange(a, e));
        words_behind(p, s, e);
    }
}

/// Whether a text holds no white space.
pub open spec fn no_white_space(s: Seq<char>) -> bool {
    forall|i: int| 0 <= i < s.len() ==> !white_space(#[trigger] s[i])
}

/// The words of a text that begins with a word: that word, and then those of what
/// stands behind it.
pub proof fn word_first(word: Seq<char>, rest: Seq<char>)
    requires
        word.len() > 0,
        no_white_space(word),
        rest.len() == 0 || white_space(rest[0]),
    ensures
        words_of(word + rest) == seq![word] + words_of(rest),
{
    let s = word + rest;
    find_white_props(s, false, 0);
    assert(s[0] == word[0]);
    assert(find_white(s, false, 0) == 0);
    let e = find_white(s, true, 0);
    find_white_props(s, true, 0);
    if e < word.len() {
        assert(s[e] == word[e]);
    }
    if rest.len() > 0 {
        assert(s[word.len() as int] == rest[0]);
    }
    assert(e == word.len());
    assert(s.subrange(0, e) =~= word);
    words_behind(word, rest, 0);
}

/// White space at the beginning of a text has no effect on its words.
pub proof fn white_space_first(c: char, rest: Seq<char>)
    requires
        white_space(c),
    ensures
        words_of(seq![c] + rest) == words_of(rest),
{
    let s = seq![c] + rest;
    assert(s[0] == c);
    assert(find_white(s, false, 0) == find_white(s, false, 1));
    assert(words_from(s, 0) == words_from(s, 1));
    words_behind(seq![c], rest, 0);
}

/// The words of a text without white space at its ends begin with its first
/// character and end with its last.
pub proof fn words_keep_ends(s: Seq<char>, start: int)
    requires
        0 <= start < s.len(),
        !white_space(s.last()),
    ensures
        words_from(s, start).len() > 0,
        words_from(s, start)[0].len() > 0,
        !white_space(s[start]) ==> words_from(s, start)[0][0] == s[start],
        words_from(s, start).last().len() > 0,
        words_from(s, start).last().last() == s.last(),
    decreases s.len() - start,
{
    let a = find_white(s, false, start);
    find_white_props(s, false, start);
    assert(a < s.len()) by {
        if a == s.len() {
            assert(white_space(s[s.len() - 1]));
        }
    }
    let e = find_white(s, true, a);
    find_white_props(s, true, a);
    let first = s.subrange(a, e);
    assert(e > a);
    if e == s.len() {
        assert(words_from(s, e) =~= seq![]);
        assert(words_from(s, start) =~= seq![first]);
        assert(first.last() == s.last());
    } else {
        words_keep_ends(s, e);
        assert(words_from(s, start) == seq![first] + words_from(s, e));
        assert(words_from(s, start).last() == words_from(s, e).last());
    }
}

proof fn lines_of_two(a: Seq<char>, b: Seq<char>, start: int)
    requires
        0 <= start <= a.len(),
        a.len() == 0 || a.last() == '\n',
    ensures
        lines_from(a + b, start) == lines_from(a, start) + lines_from(a + b, a.len() as int),
    decreases a.len() - start,
{
    if start < a.len() {
        let s = a + b;
        let e = find_char(a, '\n', start);
        find_char_props(a, '\n', start);
        find_char_props(s, '\n', start);
        assert(a[a.len() - 1] == '\n');
        assert(e < a.len());
        let f = find_char(s, '\n', start);
        assert(s[e] == a[e]);
        if f < e {
            assert(s[f] == a[f]);
        }
        assert(f == e);
        assert(s.subrange(start, e) =~= a.subrange(start, e));
        lines_of_two(a, b, e + 1);
        assert(lines_from(s, start) =~= lines_from(a, start) + lines_from(s, a.len() as int));
    } else {
        assert(lines_from(a, start) =~= seq![]);
        assert(lines_from(a + b, start) =~= lines_from(a, start) + lines_from(
            a + b,
            a.len() as int,
        ));
    }
}

/// One more line behind complete lines is one more line.
pub proof fn one_more_line(before: Seq<char>, line: Seq<char>)
    requires
        before.len() == 0 || before.last() == '\n',
        !line.contains('\n'),
        line.len() > 0 ==> line.last() != '\r',
    ensures
        lines_of(before + line.push('\n')) == lines_of(before).push(line),
{
    let b = line.push('\n');
    let s = before + b;
    let k = before.len() as int;
    lines_of_two(before, b, 0);
    find_char_props(s, '\n', k);
    let e = find_char(s, '\n', k);
    assert(s[s.len() - 1] == '\n');
    if e < s.len() - 1 {
        assert(line[e - k] == '\n');
    }
    assert(e == s.len() - 1);
    assert(s.subrange(k, e) =~= line);
    assert(lines_from(s, e + 1) =~= seq![]);
    assert(lines_from(s, k) =~= seq![line]);
    assert(lines_of(before) + seq![line] =~= lines_of(before).push(line));
}

// ---------------------------------------------------------------------------
// Trimming

/// `s` without the white space at its beginning.
pub open spec fn trim_left(s: Seq<char>) -> Seq<char>
    decreases s.len(),
{
    if s.len() > 0 && white_space(s[0]) {
        trim_left(s.drop_first())
    } else {
        s
    }
}

/// `s` without the white space at its end.
pub open spec fn trim_right(s: Seq<char>) -> Seq<char>
    decreases s.len(),
{
    if s.len() > 0 && white_space(s.last()) {
        trim_right(s.drop_last())
    } else {
        s
    }
}

/// `s` without the white space at its two ends.
pub open spec fn trimmed(s: Seq<char>) -> Seq<char> {
    trim_right(trim_left(s))
}

/// Drops the white space at both ends.
pub fn trim(s: &str) -> (r: String)
    ensures
        r@ == trimmed(s@),
{
    let v = chars_of(s);
    let mut from: usize = 0;
    assert(v@.skip(0) =~= v@);
    while from < v.len() && is_white_space(v[from])
        invariant
            from <= v.len(),
            trim_left(v@.skip(from as int)) == trim_left(v@),
        decreases v.len() - from,
    {
        proof {
            assert(v@.skip(from as int).drop_first() =~= v@.skip(from + 1));
        }
        from += 1;
    }
    let mut to: usize = v.len();
    assert(v@.subrange(from as int, to as int) =~= v@.skip(from as int));
    while from < to && is_white_space(v[to - 1])
        invariant
            from <= to <= v.len(),
            trim_right(v@.subrange(from as int, to as int)) == trimmed(v@),
        decreases to,
    {
        proof {
            assert(v@.subrange(from as int, to as int).drop_last() =~= v@.subrange(
                from as int,
                to - 1,
            ));
        }
        to -= 1;
    }
    text_of(&v, from, to)
}

/// `s` without the occurrences of `c` at its end.
pub open spec fn trim_right_char(s: Seq<char>, c: char) -> Seq<char>
    decreases s.len(),
{
    if s.len() > 0 && s.last() == c {
        trim_right_char(s.drop_last(), c)
    } else {
        s
    }
}

/// Drops every `c` at the end.
pub fn trim_end_char(s: &str, c: char) -> (r: String)
    ensures
        r@ == trim_right_char(s@, c),
{
    let v = chars_of(s);
    let mut to: usize = v.len();
    assert(v@.take(to as int) =~= v@);
    while 0 < to && v[to - 1] == c
        invariant
            to <= v.len(),
            trim_right_char(v@.take(to as int), c) == trim_right_char(v@, c),
        decreases to,
    {
        proof {
            assert(v@.take(to as int).drop_last() =~= v@.take(to - 1));
        }
        to -= 1;
    }
    text_of(&v, 0, to)
}

/// `s` without the occurrences of `c` at its beginning.
pub open spec fn trim_left_char(s: Seq<char>, c: char) -> Seq<char>
    decreases s.len(),
{
    if s.len() > 0 && s[0] == c {
        trim_left_char(s.drop_first(), c)
    } else {
        s
    }
}

/// `s` without the occurrences of `pat` at its beginning.
pub open spec fn trim_left_text(s: Seq<char>, pat: Seq<char>) -> Seq<char>
    decreases s.len(),
{
    if pat.len() > 0 && occurs_at(s, pat, 0) {
        trim_left_text(s.skip(pat.len() as int), pat)
    } else {
        s
    }
}

/// Drops every `pat` at the beginning.
pub fn trim_start_text(s: &str, pat: &str) -> (r: String)
    ensures
        r@ == trim_left_text(s@, pat@),
{
    let v = chars_of(s);
    let p = chars_of(pat);
    let mut from: usize = 0;
    assert(v@.skip(0) =~= v@);
    while p.len() > 0 && is_at(&v, &p, from)
        invariant
            p@ == pat@,
            from <= v.len(),
            trim_left_text(v@.skip(from as int), pat@) == trim_left_text(v@, pat@),
        decreases v.len() - from,
    {
        proof {
            assert(v@.skip(from as int).subrange(0, p@.len() as int) =~= v@.subrange(
                from as int,
                from + p@.len(),
            ));
            assert(v@.skip(from as int).skip(p@.len() as int) =~= v@.skip(from + p@.len()));
        }
        from += p.len();
    }
    proof {
        let rest = v@.skip(from as int);
        if p@.len() > 0 && occurs_at(rest, pat@, 0) {
            assert(v@.subrange(from as int, from + p@.len()) =~= rest.subrange(0, p@.len() as int));
        }
    }
    text_of(&v, from, v.len())
}

/// Drops every `c` at the beginning.
pub fn trim_start_char(s: &str, c: char) -> (r: String)
    ensures
        r@ == trim_left_char(s@, c),
{
    let v = chars_of(s);
    let mut from: usize = 0;
    assert(v@.skip(0) =~= v@);
    while from < v.len() && v[from] == c
        invariant
            from <= v.len(),
            trim_left_char(v@.skip(from as int), c) == trim_left_char(v@, c),
        decreases v.len() - from,
    {
        proof {
            assert(v@.skip(from as int).drop_first() =~= v@.skip(from + 1));
        }
        from += 1;
    }
    text_of(&v, from, v.len())
}

// ---------------------------------------------------------------------------
// Rewriting

/// Every character of `s` replaced by the text that `f` gives for it.
pub open spec fn expand(s: Seq<char>, f: spec_fn(char) -> Seq<char>) -> Seq<char>
    decreases s.len(),
{
    if s.len() == 0 {
        seq![]
    } else {
        expand(s.drop_last(), f) + f(s.last())
    }
}

/// Rewriting a text is rewriting its first character and then the rest.
pub proof fn expand_first(s: Seq<char>, f: spec_fn(char) -> Seq<char>)
    requires
        s.len() > 0,
    ensures
        expand(s, f) == f(s[0]) + expand(s.drop_first(), f),
    decreases s.len(),
{
    if s.len() == 1 {
        assert(s.drop_last() =~= seq![]);
        assert(s.drop_first() =~= seq![]);
        assert(expand(s, f) =~= f(s[0]) + expand(s.drop_first(), f));
    } else {
        expand_first(s.drop_last(), f);
        assert(s.drop_last().drop_first() =~= s.drop_first().drop_last());
        assert(expand(s, f) =~= f(s[0]) + expand(s.drop_first(), f));
    }
}

/// Where no replacement begins with another, different texts are rewritten
/// differently.
pub proof fn expand_injective(a: Seq<char>, b: Seq<char>, f: spec_fn(char) -> Seq<char>)
    requires
        forall|x: char, y: char| x != y ==> !(#[trigger] f(x)).is_prefix_of(#[trigger] f(y)),
        expand(a, f) == expand(b, f),
    ensures
        a == b,
    decreases a.len() + b.len(),
{
    if a.len() == 0 && b.len() == 0 {
        assert(a =~= b);
    } else if a.len() == 0 {
        expand_first(b, f);
        let c = other_char(b[0]);
        assert(f(b[0]) =~= seq![]);
        assert(f(b[0]).is_prefix_of(f(c)));
    } else if b.len() == 0 {
        expand_first(a, f);
        let c = other_char(a[0]);
        assert(f(a[0]) =~= seq![]);
        assert(f(a[0]).is_prefix_of(f(c)));
    } else {
        expand_first(a, f);
        expand_first(b, f);
        let x = f(a[0]);
        let y = f(b[0]);
        let s = expand(a, f);
        assert(s.subrange(0, x.len() as int) =~= x);
        assert(s.subrange(0, y.len() as int) =~= y);
        if a[0] != b[0] {
            if x.len() <= y.len() {
                assert(y.subrange(0, x.len() as int) =~= x);
                assert(x.is_prefix_of(y));
            } else {
                assert(x.subrange(0, y.len() as int) =~= y);
                assert(y.is_prefix_of(x));
            }
        }
        assert(expand(a.drop_first(), f) =~= s.skip(x.len() as int));
        assert(expand(b.drop_first(), f) =~= s.skip(x.len() as int));
        expand_injective(a.drop_first(), b.drop_first(), f);
        assert(a =~= seq![a[0]] + a.drop_first());
        assert(b =~= seq![b[0]] + b.drop_first());
    }
}

/// A character other than `c`.
spec fn other_char(c: char) -> char {
    if c == 'a' {
        'b'
    } else {
        'a'
    }
}

/// Every `c` in `s` replaced by `with`.
pub open spec fn replaced(s: Seq<char>, c: char, with: Seq<char>) -> Seq<char> {
    expand(
        s,
        |x: char|
            if x == c {
                with
            } else {
                seq![x]
            },
    )
}

/// Replaces every `c` by `with`.
pub fn replace_char(s: &str, c: char, with: &str) -> (r: String)
    ensures
        r@ == replaced(s@, c, with@),
{
    let v = chars_of(s);
    let mut out = String::new();
    for i in 0..v.len()
        invariant
            out@ == replaced(v@.take(i as int), c, with@),
    {
        proof {
            assert(v@.take(i + 1).drop_last() =~= v@.take(i as int));
        }
        let ghost before = out@;
        if v[i] == c {
            out.append(with);
        } else {
            out.push(v[i]);
            assert(out@ =~= before + seq![v@[i as int]]);
        }
    }
    assert(v@.take(v@.len() as int) =~= v@);
    out
}

/// `s` with its ASCII letters in lower case.
pub open spec fn lowered(s: Seq<char>) -> Seq<char> {
    s.map_values(|c: char| lower(c))
}

/// `s` with its ASCII letters in upper case.
pub open spec fn uppered(s: Seq<char>) -> Seq<char> {
    s.map_values(|c: char| upper(c))
}

/// Lower-cases the ASCII letters.
pub fn to_lower_text(s: &str) -> (r: String)
    ensures
        r@ == lowered(s@),
{
    let v = chars_of(s);
    let mut out = String::new();
    for i in 0..v.len()
        invariant
            out@ == lowered(v@.take(i as int)),
    {
        out.push(to_lower(v[i]));
        assert(out@ =~= lowered(v@.take(i + 1)));
    }
    assert(v@.take(v@.len() as int) =~= v@);
    out
}

/// Upper-cases the ASCII letters.
pub fn to_upper_text(s: &str) -> (r: String)
    ensures
        r@ == uppered(s@),
{
    let v = chars_of(s);
    let mut out = String::new();
    for i in 0..v.len()
        invariant
            out@ == uppered(v@.take(i as int)),
    {
        out.push(to_upper(v[i]));
        assert(out@ =~= uppered(v@.take(i + 1)));
    }
    assert(v@.take(v@.len() as int) =~= v@);
    out
}

/// The texts of `parts` one after another, with `sep` between each two.
pub open spec fn joined(parts: Seq<Seq<char>>, sep: Seq<char>) -> Seq<char>
    decreases parts.len(),
{
    if parts.len() == 0 {
        seq![]
    } else if parts.len() == 1 {
        parts[0]
    } else {
        joined(parts.drop_last(), sep) + sep + parts.last()
    }
}

/// Joined texts begin as the first one does and end as the last one does.
pub proof fn joined_keeps_ends(parts: Seq<Seq<char>>, sep: Seq<char>)
    requires
        parts.len() > 0,
        parts[0].len() > 0,
        parts.last().len() > 0,
    ensures
        joined(parts, sep).len() > 0,
        joined(parts, sep)[0] == parts[0][0],
        joined(parts, sep).last() == parts.last().last(),
{
    joined_keeps_first(parts, sep);
}

proof fn joined_keeps_first(parts: Seq<Seq<char>>, sep: Seq<char>)
    requires
        parts.len() > 0,
        parts[0].len() > 0,
    ensures
        joined(parts, sep).len() > 0,
        joined(parts, sep)[0] == parts[0][0],
    decreases parts.len(),
{
    if parts.len() > 1 {
        joined_keeps_first(parts.drop_last(), sep);
    }
}

/// Joins strings with a separator.
pub fn join(parts: &Vec<String>, sep: &str) -> (r: String)
    ensures
        r@ == joined(views(parts@), sep@),
{
    let mut out = String::new();
    for i in 0..parts.len()
        invariant
            out@ == joined(views(parts@).take(i as int), sep@),
    {
        if i > 0 {
            out.append(sep);
        }
        out.append(&parts[i]);
        proof {
            assert(views(parts@).take(i + 1).drop_last() =~= views(parts@).take(i as int));
            assert(out@ =~= joined(views(parts@).take(i + 1), sep@));
        }
    }
    assert(views(parts@).take(parts@.len() as int) =~= views(parts@));
    out
}

// ---------------------------------------------------------------------------
// Order

/// Whether `a`, read from position `i` on, comes before `b`: the first
/// difference decides by code point, and a proper prefix comes first.
pub open spec fn precedes_from(a: Seq<char>, b: Seq<char>, i: int) -> bool
    decreases b.len() - i,
{
    if i < 0 || i >= b.len() {
        false
    } else if i >= a.len() {
        true
    } else if a[i] != b[i] {
        a[i] < b[i]
    } else {
        precedes_from(a, b, i + 1)
    }
}

/// Whether `a` comes before `b` in the order of strings.
pub open spec fn precedes(a: Seq<char>, b: Seq<char>) -> bool {
    precedes_from(a, b, 0)
}

/// Whether `a` comes before `b`.
pub fn is_before(a: &str, b: &str) -> (r: bool)
    ensures
        r == precedes(a@, b@),
{
    let x = chars_of(a);
    let y = chars_of(b);
    let mut i: usize = 0;
    while i < x.len() && i < y.len() && x[i] == y[i]
        invariant
            i <= x.len(),
            i <= y.len(),
            precedes(x@, y@) == precedes_from(x@, y@, i as int),
        decreases x.len() - i,
    {
        i += 1;
    }
    if i >= y.len() {
        false
    } else if i >= x.len() {
        true
    } else {
        x[i] < y[i]
    }
}

/// No text comes before itself, nor two before each other.
pub proof fn precedes_from_asymmetric(a: Seq<char>, b: Seq<char>, i: int)
    requires
        precedes_from(a, b, i),
    ensures
        !precedes_from(b, a, i),
        a != b,
    decreases b.len() - i,
{
    if i < a.len() && a[i] == b[i] {
        precedes_from_asymmetric(a, b, i + 1);
    }
}

/// The order is transitive.
pub proof fn precedes_from_transitive(a: Seq<char>, b: Seq<char>, c: Seq<char>, i: int)
    requires
        precedes_from(a, b, i),
        precedes_from(b, c, i),
    ensures
        precedes_from(a, c, i),
    decreases b.len() - i,
{
    if i < a.len() && i < b.len() && i < c.len() && a[i] == b[i] && b[i] == c[i] {
        precedes_from_transitive(a, b, c, i + 1);
    }
}

/// Of two different texts that agree up to `i`, one comes before the other.
pub proof fn precedes_from_total(a: Seq<char>, b: Seq<char>, i: int)
    requires
        0 <= i,
        i <= a.len(),
        i <= b.len(),
        a.take(i) == b.take(i),
        a != b,
    ensures
        precedes_from(a, b, i) || precedes_from(b, a, i),
    decreases b.len() - i,
{
    if i < a.len() && i < b.len() {
        if a[i] == b[i] {
            assert(a.take(i + 1) =~= a.take(i).push(a[i]));
            assert(b.take(i + 1) =~= b.take(i).push(b[i]));
            precedes_from_total(a, b, i + 1);
        }
    } else if i == a.len() && i == b.len() {
        assert(a.take(i) =~= a);
        assert(b.take(i) =~= b);
    }
}

/// Of two different texts one comes before the other.
pub proof fn precedes_total(a: Seq<char>, b: Seq<char>)
    requires
        a != b,
    ensures
        precedes(a, b) || precedes(b, a),
{
    assert(a.take(0) =~= b.take(0));
    precedes_from_total(a, b, 0);
}

/// Whether no text comes before the one that stands in front of it.
pub open spec fn in_order(s: Seq<Seq<char>>) -> bool {
    forall|i: int, j: int| 0 <= i < j < s.len() ==> !precedes(#[trigger] s[j], #[trigger] s[i])
}

/// Putting a text where everything in front does not come after it and
/// everything behind comes after it keeps a list in order.
proof fn insert_in_order(s: Seq<Seq<char>>, p: int, x: Seq<char>)
    requires
        in_order(s),
        0 <= p <= s.len(),
        forall|i: int| 0 <= i < p ==> !precedes(x, #[trigger] s[i]),
        p < s.len() ==> precedes(x, s[p]),
    ensures
        in_order(s.insert(p, x)),
{
    let t = s.insert(p, x);
    assert forall|i: int, j: int| 0 <= i < j < t.len() implies !precedes(
        #[trigger] t[j],
        #[trigger] t[i],
    ) by {
        let i0 = if i < p {
            i
        } else {
            i - 1
        };
        let j0 = if j < p {
            j
        } else {
            j - 1
        };
        if i == p {
            assert(t[j] == s[j0]);
            if precedes(s[j0], x) {
                if j0 == p {
                    precedes_from_asymmetric(x, s[p], 0);
                } else {
                    precedes_from_transitive(s[j0], x, s[p], 0);
                    assert(!precedes(s[j0], s[p]));
                }
            }
        } else if j == p {
            assert(t[i] == s[i0]);
        } else {
            assert(t[i] == s[i0] && t[j] == s[j0]);
        }
    }
}

/// Putting a text in adds it to the collection, wherever it is put.
proof fn insert_to_multiset(s: Seq<Seq<char>>, p: int, x: Seq<char>)
    requires
        0 <= p <= s.len(),
    ensures
        s.insert(p, x).to_multiset() == s.to_multiset().insert(x),
{
    broadcast use vstd::seq_lib::group_to_multiset_ensures;

    let a = s.take(p);
    let b = s.skip(p);
    assert(s =~= a + b);
    assert(s.insert(p, x) =~= a.push(x) + b);
    vstd::seq_lib::lemma_multiset_commutative(a, b);
    vstd::seq_lib::lemma_multiset_commutative(a.push(x), b);
    assert(s.insert(p, x).to_multiset() =~= s.to_multiset().insert(x));
}

/// Sorts strings.
pub fn sort_strings(v: &Vec<String>) -> (r: Vec<String>)
    ensures
        in_order(views(r@)),
        views(r@).to_multiset() == views(v@).to_multiset(),
{
    let mut out: Vec<String> = Vec::new();
    assert(views(out@) =~= views(v@.take(0)));
    for i in 0..v.len()
        invariant
            in_order(views(out@)),
            views(out@).to_multiset() == views(v@.take(i as int)).to_multiset(),
    {
        let mut p: usize = out.len();
        let ghost o = views(out@);
        let ghost x = v@[i as int]@;
        while p > 0 && is_before(&v[i], &out[p - 1])
            invariant
                p <= out.len(),
                i < v.len(),
                x == v@[i as int]@,
                o == views(out@),
                p < out.len() ==> precedes(x, o[p as int]),
            decreases p,
        {
            p -= 1;
            assert(o[p as int] == out@[p as int]@);
        }
        proof {
            assert forall|k: int| 0 <= k < p implies !precedes(x, #[trigger] o[k]) by {
                assert(o[p - 1] == out@[p - 1]@);
                if precedes(x, o[k]) && k < p - 1 {
                    if o[k] == o[p - 1] {
                    } else {
                        assert(!precedes(o[p - 1], o[k]));
                        precedes_total(o[k], o[p - 1]);
                        precedes_from_transitive(x, o[k], o[p - 1], 0);
                    }
                }
            }
            insert_in_order(o, p as int, x);
            insert_to_multiset(o, p as int, x);
        }
        out.insert(p, v[i].clone());
        proof {
            broadcast use vstd::seq_lib::group_to_multiset_ensures;

            assert(views(out@) =~= o.insert(p as int, x));
            assert(views(v@.take(i + 1)) =~= views(v@.take(i as int)).push(x));
        }
    }
    assert(v@.take(v@.len() as int) =~= v@);
    out
}

/// Two lists in order that hold the same texts are the same list.
pub proof fn in_order_unique(a: Seq<Seq<char>>, b: Seq<Seq<char>>)
    requires
        in_order(a),
        in_order(b),
        a.to_multiset() == b.to_multiset(),
    ensures
        a == b,
    decreases a.len(),
{
    broadcast use vstd::seq_lib::group_to_multiset_ensures;

    assert(a.len() == a.to_multiset().len());
    assert(b.len() == b.to_multiset().len());
    if a.len() == 0 {
        assert(a =~= b);
    } else {
        let x = a.last();
        let y = b.last();
        if x != y {
            assert(a.contains(x) && b.contains(y));
            assert(b.to_multiset().count(x) > 0 && a.to_multiset().count(y) > 0);
            assert(b.contains(x) && a.contains(y));
            let i = choose|i: int| 0 <= i < b.len() && b[i] == x;
            let j = choose|j: int| 0 <= j < a.len() && a[j] == y;
            assert(!precedes(b[b.len() - 1], b[i]));
            assert(!precedes(a[a.len() - 1], a[j]));
            precedes_total(x, y);
        }
        let c = a.drop_last();
        let d = b.drop_last();
        assert(a =~= c.push(x));
        assert(b =~= d.push(x));
        assert(c.to_multiset() =~= d.to_multiset()) by {
            assert(c.to_multiset() =~= a.to_multiset().remove(x));
            assert(d.to_multiset() =~= b.to_multiset().remove(x));
        }
        assert forall|i: int, j: int| 0 <= i < j < c.len() implies !precedes(
            #[trigger] c[j],
            #[trigger] c[i],
        ) by {
            assert(c[i] == a[i] && c[j] == a[j]);
        }
        assert forall|i: int, j: int| 0 <= i < j < d.len() implies !precedes(
            #[trigger] d[j],
            #[trigger] d[i],
        ) by {
            assert(d[i] == b[i] && d[j] == b[j]);
        }
        in_order_unique(c, d);
    }
}

/// Whether every text comes before the one that stands behind it.
pub open spec fn strictly_in_order(s: Seq<Seq<char>>) -> bool {
    forall|i: int, j: int| 0 <= i < j < s.len() ==> precedes(#[trigger] s[i], #[trigger] s[j])
}

/// Sorts strings and keeps each once.
pub fn sort_dedup_strings(v: &Vec<String>) -> (r: Vec<String>)
    ensures
        strictly_in_order(views(r@)),
        forall|x: Seq<char>| #[trigger] views(r@).contains(x) <==> views(v@).contains(x),
{
    let sorted = sort_strings(v);
    let ghost s = views(sorted@);
    let mut out: Vec<String> = Vec::new();
    for i in 0..sorted.len()
        invariant
            s == views(sorted@),
            in_order(s),
            strictly_in_order(views(out@)),
            i > 0 ==> views(out@).len() > 0 && views(out@).last() == s[i - 1],
            i == 0 ==> out@.len() == 0,
            forall|x: Seq<char>| #[trigger] views(out@).contains(x) <==> s.take(i as int).contains(x),
    {
        let ghost o = views(out@);
        let ghost x = s[i as int];
        assert(x == sorted@[i as int]@);
        let n = out.len();
        let fresh = n == 0 || !same(&out[n - 1], &sorted[i]);
        if n > 0 {
            assert(o.last() == out@[n - 1]@);
        }
        proof {
            if !fresh {
                assert(o.last() == x);
                assert(o[o.len() - 1] == x);
            }
            assert forall|y: Seq<char>| s.take(i + 1).contains(y) <==> (s.take(i as int).contains(y)
                || y == x) by {
                let a = s.take(i as int);
                let b = s.take(i + 1);
                if b.contains(y) {
                    let k = choose|k: int| 0 <= k < b.len() && b[k] == y;
                    if k < i {
                        assert(a[k] == y);
                    }
                }
                if a.contains(y) {
                    let k = choose|k: int| 0 <= k < a.len() && a[k] == y;
                    assert(b[k] == y);
                }
                assert(b[i as int] == x);
            }
        }
        if fresh {
            out.push(sorted[i].clone());
            proof {
                let t = views(out@);
                assert(t =~= o.push(x));
                if o.len() > 0 {
                    assert(!precedes(s[i as int], s[i - 1]));
                    precedes_total(x, o.last());
                }
                assert forall|a: int, b: int| 0 <= a < b < t.len() implies precedes(
                    #[trigger] t[a],
                    #[trigger] t[b],
                ) by {
                    assert(t[a] == o[a]);
                    if b < o.len() {
                        assert(t[b] == o[b]);
                    } else if a < o.len() - 1 {
                        assert(precedes(o[a], o[o.len() - 1]));
                        precedes_from_transitive(o[a], o.last(), x, 0);
                    }
                }
                assert forall|y: Seq<char>| t.contains(y) <==> (o.contains(y) || y == x) by {
                    if t.contains(y) {
                        let k = choose|k: int| 0 <= k < t.len() && t[k] == y;
                        if k < o.len() {
                            assert(o[k] == y);
                        }
                    }
                    if o.contains(y) {
                        let k = choose|k: int| 0 <= k < o.len() && o[k] == y;
                        assert(t[k] == y);
                    }
                    assert(t[o.len() as int] == x);
                }
            }
        }
        proof {
            let t = views(out@);
            assert forall|y: Seq<char>| #[trigger] t.contains(y) <==> s.take(i + 1).contains(y) by {
                assert(o.contains(y) <==> s.take(i as int).contains(y));
                assert(t.contains(y) <==> (o.contains(y) || y == x));
            }
        }
    }
    proof {
        broadcast use vstd::seq_lib::group_to_multiset_ensures;

        assert(s.take(s.len() as int) =~= s);
        assert forall|x: Seq<char>| #[trigger] views(out@).contains(x) <==> views(v@).contains(x) by {
            assert(s.contains(x) <==> s.to_multiset().count(x) > 0);
            assert(views(v@).contains(x) <==> views(v@).to_multiset().count(x) > 0);
        }
    }
    out
}

/// Two strictly ordered lists of the same texts are the same list.
pub proof fn strictly_in_order_unique(a: Seq<Seq<char>>, b: Seq<Seq<char>>)
    requires
        strictly_in_order(a),
        strictly_in_order(b),
        forall|x: Seq<char>| #[trigger] a.contains(x) <==> b.contains(x),
    ensures
        a == b,
    decreases a.len(),
{
    if a.len() == 0 {
        if b.len() > 0 {
            assert(b.contains(b[0]));
            assert(a.contains(b[0]));
        }
        assert(a =~= b);
    } else {
        let x = a.last();
        assert(a[a.len() - 1] == x);
        assert(a.contains(x));
        assert(b.contains(x));
        let y = b.last();
        assert(b[b.len() - 1] == y);
        assert(b.contains(y));
        assert(a.contains(y));
        let i = choose|i: int| 0 <= i < b.len() && b[i] == x;
        let j = choose|j: int| 0 <= j < a.len() && a[j] == y;
        if x != y {
            assert(precedes(b[i], b[b.len() - 1]));
            assert(precedes(a[j], a[a.len() - 1]));
            precedes_from_asymmetric(x, y, 0);
        }
        let c = a.drop_last();
        let d = b.drop_last();
        assert forall|z: Seq<char>| #[trigger] c.contains(z) <==> d.contains(z) by {
            if c.contains(z) {
                let k = choose|k: int| 0 <= k < c.len() && c[k] == z;
                assert(a[k] == z);
                assert(a.contains(z));
                assert(b.contains(z));
                let l = choose|l: int| 0 <= l < b.len() && b[l] == z;
                if l == b.len() - 1 {
                    assert(precedes(a[k], a[a.len() - 1]));
                    precedes_from_asymmetric(x, x, 0);
                } else {
                    assert(d[l] == z);
                }
            }
            if d.contains(z) {
                let k = choose|k: int| 0 <= k < d.len() && d[k] == z;
                assert(b[k] == z);
                assert(b.contains(z));
                assert(a.contains(z));
                let l = choose|l: int| 0 <= l < a.len() && a[l] == z;
                if l == a.len() - 1 {
                    assert(precedes(b[k], b[b.len() - 1]));
                    precedes_from_asymmetric(x, x, 0);
                } else {
                    assert(c[l] == z);
                }
            }
        }
        assert forall|p: int, q: int| 0 <= p < q < c.len() implies precedes(
            #[trigger] c[p],
            #[trigger] c[q],
        ) by {
            assert(c[p] == a[p] && c[q] == a[q]);
        }
        assert forall|p: int, q: int| 0 <= p < q < d.len() implies precedes(
            #[trigger] d[p],
            #[trigger] d[q],
        ) by {
            assert(d[p] == b[p] && d[q] == b[q]);
        }
        strictly_in_order_unique(c, d);
        assert(a =~= c.push(x));
        assert(b =~= d.push(y));
    }
}

/// Whether two lists of strings hold the same texts in the same order.
pub fn same_strings(a: &Vec<String>, b: &Vec<String>) -> (r: bool)
    ensures
        r == (views(a@) == views(b@)),
{
    let ghost x = views(a@);
    let ghost y = views(b@);
    if a.len() != b.len() {
        assert(x.len() != y.len());
        return false;
    }
    for i in 0..a.len()
        invariant
            x == views(a@),
            y == views(b@),
            a.len() == b.len(),
            forall|j: int| 0 <= j < i ==> x[j] == y[j],
    {
        assert(x[i as int] == a@[i as int]@);
        assert(y[i as int] == b@[i as int]@);
        if a[i] != b[i] {
            return false;
        }
    }
    assert(x =~= y);
    true
}

/// Positions in the order of their keys, with one more put in its place, behind
/// those whose keys do not come after its own.
pub open spec fn with_position(keys: Seq<Seq<char>>, s: Seq<int>, x: int) -> Seq<int>
    decreases s.len(),
{
    if s.len() > 0 && precedes(keys[x], keys[s.last()]) {
        with_position(keys, s.drop_last(), x).push(s.last())
    } else {
        s.push(x)
    }
}

/// The first `n` positions in the order of their keys; of equal keys the first
/// comes first.
pub open spec fn sorted_positions(keys: Seq<Seq<char>>, n: nat) -> Seq<int>
    decreases n,
{
    if n == 0 {
        seq![]
    } else {
        with_position(keys, sorted_positions(keys, (n - 1) as nat), n - 1)
    }
}

/// Positions as integers.
pub open spec fn positions(v: Seq<usize>) -> Seq<int> {
    v.map_values(|x: usize| x as int)
}

proof fn with_position_at(keys: Seq<Seq<char>>, s: Seq<int>, x: int, p: int)
    requires
        0 <= p <= s.len(),
        forall|j: int| p <= j < s.len() ==> precedes(keys[x], keys[#[trigger] s[j]]),
        p > 0 ==> !precedes(keys[x], keys[s[p - 1]]),
    ensures
        with_position(keys, s, x) == s.insert(p, x),
    decreases s.len(),
{
    if p == s.len() {
        assert(s.insert(p, x) =~= s.push(x));
    } else {
        assert(precedes(keys[x], keys[s[s.len() - 1]]));
        let t = s.drop_last();
        assert forall|j: int| p <= j < t.len() implies precedes(keys[x], keys[#[trigger] t[j]]) by {
            assert(t[j] == s[j]);
        }
        with_position_at(keys, t, x, p);
        assert(t.insert(p, x).push(s.last()) =~= s.insert(p, x));
    }
}

/// Whether the position `x` stands before the position `y` in the order of the
/// keys, where of equal keys the first comes first.
pub open spec fn stands_before(keys: Seq<Seq<char>>, x: int, y: int) -> bool {
    precedes(keys[x], keys[y]) || (keys[x] == keys[y] && x < y)
}

/// Whether positions stand in the order of their keys.
pub open spec fn positions_in_order(keys: Seq<Seq<char>>, s: Seq<int>) -> bool {
    forall|i: int, j: int|
        0 <= i < j < s.len() ==> stands_before(keys, #[trigger] s[i], #[trigger] s[j])
}

proof fn with_position_props(keys: Seq<Seq<char>>, s: Seq<int>, x: int)
    requires
        positions_in_order(keys, s),
        forall|i: int| 0 <= i < s.len() ==> 0 <= #[trigger] s[i] < x,
    ensures
        ({
            let r = with_position(keys, s, x);
            &&& r.len() == s.len() + 1
            &&& positions_in_order(keys, r)
            &&& forall|y: int| #[trigger] r.contains(y) <==> s.contains(y) || y == x
        }),
    decreases s.len(),
{
    let r = with_position(keys, s, x);
    if s.len() > 0 && precedes(keys[x], keys[s.last()]) {
        let t = s.drop_last();
        let l = s.last();
        assert(s[s.len() - 1] == l);
        assert(positions_in_order(keys, t)) by {
            assert forall|i: int, j: int| 0 <= i < j < t.len() implies stands_before(
                keys,
                #[trigger] t[i],
                #[trigger] t[j],
            ) by {
                assert(t[i] == s[i] && t[j] == s[j]);
            }
        }
        assert forall|i: int| 0 <= i < t.len() implies 0 <= #[trigger] t[i] < x by {
            assert(t[i] == s[i]);
        }
        with_position_props(keys, t, x);
        let u = with_position(keys, t, x);
        assert(r =~= u.push(l));
        assert(s =~= t.push(l));
        assert forall|i: int, j: int| 0 <= i < j < r.len() implies stands_before(
            keys,
            #[trigger] r[i],
            #[trigger] r[j],
        ) by {
            assert(r[i] == u[i]);
            if j < u.len() {
                assert(r[j] == u[j]);
            } else {
                assert(u.contains(u[i]));
                if u[i] != x {
                    let k = choose|k: int| 0 <= k < t.len() && t[k] == u[i];
                    assert(s[k] == u[i]);
                }
            }
        }
        assert forall|y: int| #[trigger] r.contains(y) <==> s.contains(y) || y == x by {
            contains_pushed(u, l, y);
            contains_pushed(t, l, y);
        }
    } else {
        assert forall|i: int, j: int| 0 <= i < j < r.len() implies stands_before(
            keys,
            #[trigger] r[i],
            #[trigger] r[j],
        ) by {
            assert(r[i] == s[i]);
            if j < s.len() {
                assert(r[j] == s[j]);
            } else {
                let l = s.last();
                assert(s[s.len() - 1] == l);
                if keys[l] != keys[x] {
                    precedes_total(keys[l], keys[x]);
                }
                if i < s.len() - 1 && precedes(keys[s[i]], keys[l]) && precedes(keys[l], keys[x]) {
                    precedes_from_transitive(keys[s[i]], keys[l], keys[x], 0);
                }
            }
        }
        assert forall|y: int| #[trigger] r.contains(y) <==> s.contains(y) || y == x by {
            contains_pushed(s, x, y);
        }
    }
}

proof fn contains_pushed(s: Seq<int>, x: int, y: int)
    ensures
        s.push(x).contains(y) <==> s.contains(y) || y == x,
{
    let r = s.push(x);
    if s.contains(y) {
        let k = choose|k: int| 0 <= k < s.len() && s[k] == y;
        assert(r[k] == y);
    }
    if y == x {
        assert(r[s.len() as int] == y);
    }
    if r.contains(y) && y != x {
        let k = choose|k: int| 0 <= k < r.len() && r[k] == y;
        assert(s[k] == y);
    }
}

/// The sorted positions are all positions, each once, in the order of their keys;
/// of equal keys the first comes first.
pub proof fn sorted_positions_are_sorted(keys: Seq<Seq<char>>, n: nat)
    ensures
        sorted_positions(keys, n).len() == n,
        forall|x: int| #[trigger] sorted_positions(keys, n).contains(x) <==> 0 <= x < n,
        sorted_positions(keys, n).no_duplicates(),
        positions_in_order(keys, sorted_positions(keys, n)),
    decreases n,
{
    let r = sorted_positions(keys, n);
    if n > 0 {
        let s = sorted_positions(keys, (n - 1) as nat);
        sorted_positions_are_sorted(keys, (n - 1) as nat);
        assert forall|i: int| 0 <= i < s.len() implies 0 <= #[trigger] s[i] < n - 1 by {
            assert(s.contains(s[i]));
        }
        with_position_props(keys, s, n - 1);
    }
    assert forall|i: int, j: int| 0 <= i < j < r.len() implies #[trigger] r[i] != #[trigger] r[j] by {
        assert(stands_before(keys, r[i], r[j]));
        if r[i] == r[j] {
            precedes_from_asymmetric(keys[r[i]], keys[r[j]], 0);
        }
    }
}

/// The positions of keys in their order.
pub fn sort_positions(keys: &Vec<String>) -> (r: Vec<usize>)
    ensures
        r.len() == keys.len(),
        forall|i: int| 0 <= i < r.len() ==> (#[trigger] r@[i]) < keys.len(),
        positions(r@) == sorted_positions(views(keys@), keys@.len()),
{
    let mut order: Vec<usize> = Vec::new();
    let ghost all = views(keys@);
    assert(positions(order@) =~= seq![]);
    for i in 0..keys.len()
        invariant
            all == views(keys@),
            order.len() == i,
            forall|j: int| 0 <= j < order.len() ==> (#[trigger] order@[j]) < keys.len(),
            positions(order@) == sorted_positions(all, i as nat),
    {
        let ghost s = positions(order@);
        let mut p: usize = order.len();
        while p > 0 && is_before(&keys[i], &keys[order[p - 1]])
            invariant
                i < keys.len(),
                all == views(keys@),
                p <= order.len(),
                s == positions(order@),
                forall|j: int| 0 <= j < order.len() ==> (#[trigger] order@[j]) < keys.len(),
                forall|j: int| p <= j < s.len() ==> precedes(all[i as int], all[#[trigger] s[j]]),
            decreases p,
        {
            p -= 1;
            assert(s[p as int] == order@[p as int]);
        }
        proof {
            if p > 0 {
                assert(s[p - 1] == order@[p - 1]);
            }
            with_position_at(all, s, i as int, p as int);
        }
        let ghost o = order@;
        order.insert(p, i);
        proof {
            assert(order@ == o.insert(p as int, i));
            assert(positions(order@) =~= s.insert(p as int, i as int));
            assert forall|j: int| 0 <= j < order.len() implies (#[trigger] order@[j])
                < keys.len() by {
                if j < p {
                    assert(order@[j] == o[j]);
                } else if j > p {
                    assert(order@[j] == o[j - 1]);
                }
            }
        }
    }
    order
}

// ---------------------------------------------------------------------------
// What holds of texts put together

/// A text holds what it was put together from.
pub proof fn contains_in_middle(a: Seq<char>, pat: Seq<char>, b: Seq<char>)
    ensures
        contains_text(a + pat + b, pat),
{
    let s = a + pat + b;
    let n = a.len() as int;
    assert(s.subrange(n, n + pat.len()) =~= pat);
    assert(occurs_at(s, pat, n));
    find_text_props(s, pat, 0);
}

/// A text holds what a part of it holds.
pub proof fn contains_in_part(a: Seq<char>, part: Seq<char>, b: Seq<char>, pat: Seq<char>)
    requires
        contains_text(part, pat),
    ensures
        contains_text(a + part + b, pat),
{
    find_text_props(part, pat, 0);
    let k = find_text(part, pat, 0)->0;
    let s = a + part + b;
    let n = a.len() + k;
    assert(s.subrange(n, n + pat.len()) =~= part.subrange(k, k + pat.len()));
    assert(occurs_at(s, pat, n));
    find_text_props(s, pat, 0);
}

/// Replacing a character by another keeps the length, and every other character.
pub proof fn replaced_one_for_one(s: Seq<char>, c: char, d: char)
    ensures
        replaced(s, c, seq![d]).len() == s.len(),
        forall|i: int|
            0 <= i < s.len() ==> #[trigger] replaced(s, c, seq![d])[i] == (if s[i] == c {
                d
            } else {
                s[i]
            }),
    decreases s.len(),
{
    let f = |x: char|
        if x == c {
            seq![d]
        } else {
            seq![x]
        };
    if s.len() > 0 {
        let t = s.drop_last();
        replaced_one_for_one(t, c, d);
        let g = |x: char|
            if x == c {
                seq![d]
            } else {
                seq![x]
            };
        assert(replaced(s, c, seq![d]) == replaced(t, c, seq![d]) + (if s.last() == c {
            seq![d]
        } else {
            seq![s.last()]
        }));
        let r = replaced(s, c, seq![d]);
        assert forall|i: int| 0 <= i < s.len() implies #[trigger] r[i] == (if s[i] == c {
            d
        } else {
            s[i]
        }) by {
            if i < t.len() {
                assert(r[i] == replaced(t, c, seq![d])[i]);
                assert(t[i] == s[i]);
            }
        }
    }
}

/// Splitting joined texts gives them back, where none of them holds the separator.
pub proof fn split_all_of_list(parts: Seq<Seq<char>>, sep: char)
    requires
        parts.len() > 0,
        forall|i: int| 0 <= i < parts.len() ==> !(#[trigger] parts[i]).contains(sep),
    ensures
        split_all(joined(parts, seq![sep]), sep) == parts,
    decreases parts.len(),
{
    let last = parts.last();
    assert(parts[parts.len() - 1] == last);
    split_all_without(last, sep);
    if parts.len() == 1 {
        assert(parts =~= seq![last]);
    } else {
        let rest = parts.drop_last();
        assert forall|i: int| 0 <= i < rest.len() implies !(#[trigger] rest[i]).contains(sep) by {
            assert(rest[i] == parts[i]);
        }
        split_all_of_list(rest, sep);
        let a = joined(rest, seq![sep]);
        assert(joined(parts, seq![sep]) =~= a.push(sep) + last);
        split_all_of_joined(a, last, sep);
        assert(rest + seq![last] =~= parts);
    }
}

/// Joining the parts of a text again gives the text. There is at least one part, and
/// none holds the separator.
pub proof fn split_all_joins(s: Seq<char>, sep: char)
    ensures
        split_all(s, sep).len() >= 1,
        joined(split_all(s, sep), seq![sep]) == s,
        forall|i: int|
            0 <= i < split_all(s, sep).len() ==> !(#[trigger] split_all(s, sep)[i]).contains(sep),
    decreases s.len(),
{
    find_last_props(s, sep, s.len() as int);
    match find_last(s, sep, s.len() as int) {
        Some(k) => {
            let a = s.take(k);
            let b = s.skip(k + 1);
            assert(s =~= a.push(sep) + b);
            assert(!b.contains(sep)) by {
                if b.contains(sep) {
                    let j = choose|j: int| 0 <= j < b.len() && b[j] == sep;
                    assert(s[k + 1 + j] == sep);
                }
            }
            split_all_joins(a, sep);
            split_all_without(b, sep);
            split_all_of_joined(a, b, sep);
            let parts = split_all(s, sep);
            assert(parts.drop_last() =~= split_all(a, sep));
            assert(joined(parts, seq![sep]) =~= s);
        },
        None => {
            split_all_without(s, sep);
        },
    }
}

/// What stands before the first separator is the first part.
pub proof fn split_off(first: Seq<char>, rest: Seq<char>, sep: char)
    requires
        !first.contains(sep),
    ensures
        split_all(first.push(sep) + rest, sep) == seq![first] + split_all(rest, sep),
{
    split_all_without(first, sep);
    split_all_of_joined(first, rest, sep);
}

/// A part behind a separator is one part more.
pub proof fn split_on(before: Seq<char>, part: Seq<char>, sep: char)
    requires
        !part.contains(sep),
    ensures
        split_all(before + seq![sep] + part, sep) == split_all(before, sep).push(part),
{
    split_all_without(part, sep);
    split_all_of_joined(before, part, sep);
    assert(before + seq![sep] + part =~= before.push(sep) + part);
    assert(split_all(before, sep) + seq![part] =~= split_all(before, sep).push(part));
}

/// Putting texts one behind another, in whatever order it is done.
pub proof fn behind_three(x: Seq<char>, a: Seq<char>, b: Seq<char>, c: Seq<char>)
    ensures
        x + (a + b + c) == x + a + b + c,
        x + (a + b) == x + a + b,
{
    assert(x + (a + b + c) =~= x + a + b + c);
    assert(x + (a + b) =~= x + a + b);
}

/// Whether among arguments an option stands with its value behind it.
pub open spec fn option_is(args: Seq<Seq<char>>, name: Seq<char>, value: Seq<char>) -> bool {
    exists|i: int| 0 <= i && i + 1 < args.len() && #[trigger] args[i] == name && args[i + 1] == value
}

/// Changing case moves a letter by the distance between the alphabets and leaves all
/// else; it can be undone up to case.
pub proof fn case_is_changed(c: char)
    ensures
        'A' <= c && c <= 'Z' ==> lower(c) as u32 == c as u32 + 32 && upper(lower(c)) == c,
        'a' <= c && c <= 'z' ==> upper(c) as u32 + 32 == c as u32 && lower(upper(c)) == c,
        !ascii_letter(c) ==> lower(c) == c && upper(c) == c,
        lower(lower(c)) == lower(c),
        upper(upper(c)) == upper(c),
{
}

/// Trimming takes white space off both ends, all of it, and nothing else.
pub proof fn trimming_keeps_the_rest(s: Seq<char>)
    ensures
        trimmed(s).len() > 0 ==> !white_space(trimmed(s)[0]) && !white_space(trimmed(s).last()),
        exists|a: int, b: int| #[trigger]
            only_white(s, 0, a) && #[trigger] only_white(s, b, s.len() as int) && a <= b
                && trimmed(s) == s.subrange(a, b),
{
    trim_left_is_suffix(s);
    let l = trim_left(s);
    let a = (s.len() - l.len()) as int;
    trim_right_is_prefix(l);
    let t = trimmed(s);
    let b = a + t.len();
    assert(t =~= s.subrange(a, b)) by {
        assert forall|i: int| 0 <= i < t.len() implies t[i] == s[a + i] by {
            assert(l[i] == s[a + i]);
        }
    }
    assert forall|i: int| b <= i < s.len() implies white_space(#[trigger] s[i]) by {
        assert(l[i - a] == s[i]);
    }
    assert(only_white(s, 0, a));
    assert(only_white(s, b, s.len() as int));
    if t.len() > 0 {
        assert(t[0] == l[0]);
    }
}

/// Whether a stretch of a text is white space alone.
pub open spec fn only_white(s: Seq<char>, from: int, to: int) -> bool {
    0 <= from <= to <= s.len() && forall|i: int| from <= i < to ==> white_space(#[trigger] s[i])
}

proof fn trim_left_is_suffix(s: Seq<char>)
    ensures
        trim_left(s).len() <= s.len(),
        trim_left(s) == s.skip(s.len() - trim_left(s).len()),
        only_white(s, 0, s.len() - trim_left(s).len()),
        trim_left(s).len() > 0 ==> !white_space(trim_left(s)[0]),
    decreases s.len(),
{
    if s.len() > 0 && white_space(s[0]) {
        let r = s.drop_first();
        trim_left_is_suffix(r);
        let n = trim_left(s).len() as int;
        assert(r.skip(r.len() - n) =~= s.skip(s.len() - n));
        assert forall|i: int| 0 <= i < s.len() - n implies white_space(#[trigger] s[i]) by {
            if i > 0 {
                assert(r[i - 1] == s[i]);
            }
        }
    } else {
        assert(s.skip(0) =~= s);
    }
}

proof fn trim_right_is_prefix(s: Seq<char>)
    ensures
        trim_right(s).len() <= s.len(),
        trim_right(s) == s.take(trim_right(s).len() as int),
        only_white(s, trim_right(s).len() as int, s.len() as int),
        trim_right(s).len() > 0 ==> !white_space(trim_right(s).last()),
    decreases s.len(),
{
    if s.len() > 0 && white_space(s.last()) {
        let r = s.drop_last();
        trim_right_is_prefix(r);
        let n = trim_right(s).len() as int;
        assert(r.take(n) =~= s.take(n));
        assert forall|i: int| n <= i < s.len() implies white_space(#[trigger] s[i]) by {
            if i < r.len() {
                assert(r[i] == s[i]);
            }
        }
    } else {
        assert(s.take(s.len() as int) =~= s);
    }
}

/// A text holds what it ends with.
pub proof fn tells(a: Seq<char>, x: Seq<char>)
    ensures
        contains_text(a + x, x),
{
    contains_in_middle(a, x, seq![]);
    assert(a + x + seq![] =~= a + x);
}

/// A text holds what it ends with, and what stands directly before that.
pub proof fn tells_behind(a: Seq<char>, b: Seq<char>, c: Seq<char>, x: Seq<char>)
    ensures
        contains_text(a + (b + c) + x, c + x),
{
    tells(a + b, c + x);
    behind_three(a, b, c, x);
    behind_three(a + b, c, x, x);
}

/// A text holds what its beginning holds.
pub proof fn tells_more(a: Seq<char>, b: Seq<char>, x: Seq<char>)
    requires
        contains_text(a, x),
    ensures
        contains_text(a + b, x),
{
    contains_in_part(seq![], a, b, x);
    assert(seq![] + a + b =~= a + b);
}

} // verus!
