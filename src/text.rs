//! Character-level helpers shared by the parsers of this crate.
use vstd::prelude::*;
use vstd::std_specs::iter::IteratorSpec;
use vstd::utf8::{decode_utf8, is_ascii_chars, valid_utf8};

verus! {

/// True of the characters that `char::is_whitespace` accepts: the Unicode
/// `White_Space` property.
pub open spec fn is_space(c: char) -> bool {
    let u = c as u32;
    ||| 0x09 <= u <= 0x0d
    ||| u == 0x20
    ||| u == 0x85
    ||| u == 0xa0
    ||| u == 0x1680
    ||| 0x2000 <= u <= 0x200a
    ||| u == 0x2028
    ||| u == 0x2029
    ||| u == 0x202f
    ||| u == 0x205f
    ||| u == 0x3000
}

/// Executable form of [`is_space`].
pub fn is_space_char(c: char) -> (r: bool)
    ensures
        r == is_space(c),
{
    let u = c as u32;
    (0x09 <= u && u <= 0x0d) || u == 0x20 || u == 0x85 || u == 0xa0 || u == 0x1680 || (0x2000
        <= u && u <= 0x200a) || u == 0x2028 || u == 0x2029 || u == 0x202f || u == 0x205f || u
        == 0x3000
}

} // verus!

verus! {

/// ASCII lower case of one character; every other character is kept.
pub open spec fn lower_char(c: char) -> char {
    if 0x41 <= c as u32 <= 0x5a {
        ((c as u32 + 32) as u8) as char
    } else {
        c
    }
}

/// ASCII lower case of a character sequence.
pub open spec fn lower_ascii(s: Seq<char>) -> Seq<char> {
    s.map_values(|c: char| lower_char(c))
}

/// Executable form of [`lower_char`].
pub fn lower_char_exec(c: char) -> (r: char)
    ensures
        r == lower_char(c),
{
    let u = c as u32;
    if 0x41 <= u && u <= 0x5a {
        ((u + 32) as u8) as char
    } else {
        c
    }
}

} // verus!

verus! {

/// `s` without its leading white space.
pub open spec fn trim_start(s: Seq<char>) -> Seq<char>
    decreases s.len(),
{
    if s.len() > 0 && is_space(s[0]) {
        trim_start(s.drop_first())
    } else {
        s
    }
}

/// `s` without its trailing white space.
pub open spec fn trim_end(s: Seq<char>) -> Seq<char>
    decreases s.len(),
{
    if s.len() > 0 && is_space(s.last()) {
        trim_end(s.drop_last())
    } else {
        s
    }
}

/// `s` without white space at either end, as `str::trim` gives it.
pub open spec fn trim(s: Seq<char>) -> Seq<char> {
    trim_end(trim_start(s))
}

/// A copy of `v[lo..hi]`.
pub fn copy_range(v: &[char], lo: usize, hi: usize) -> (r: Vec<char>)
    requires
        lo <= hi <= v@.len(),
    ensures
        r@ == v@.subrange(lo as int, hi as int),
{
    let mut r: Vec<char> = Vec::new();
    let mut i: usize = lo;
    while i < hi
        invariant
            lo <= i <= hi <= v@.len(),
            r@ == v@.subrange(lo as int, i as int),
        decreases hi - i,
    {
        r.push(v[i]);
        i = i + 1;
        assert(r@ =~= v@.subrange(lo as int, i as int));
    }
    r
}

/// The characters of `v[lo..hi]` without white space at either end.
pub fn trim_range(v: &[char], lo: usize, hi: usize) -> (r: Vec<char>)
    requires
        lo <= hi <= v@.len(),
    ensures
        r@ == trim(v@.subrange(lo as int, hi as int)),
{
    let ghost s = v@.subrange(lo as int, hi as int);
    let mut i: usize = lo;
    while i < hi && is_space_char(v[i])
        invariant
            lo <= i <= hi <= v@.len(),
            s == v@.subrange(lo as int, hi as int),
            trim_start(s) == trim_start(v@.subrange(i as int, hi as int)),
        decreases hi - i,
    {
        assert(v@.subrange(i as int, hi as int).drop_first() =~= v@.subrange(
            i as int + 1,
            hi as int,
        ));
        i = i + 1;
    }
    assert(trim_start(s) == v@.subrange(i as int, hi as int));
    let mut j: usize = hi;
    while j > i && is_space_char(v[j - 1])
        invariant
            lo <= i <= j <= hi <= v@.len(),
            trim_start(s) == v@.subrange(i as int, hi as int),
            trim(s) == trim_end(v@.subrange(i as int, j as int)),
        decreases j - i,
    {
        assert(v@.subrange(i as int, j as int).drop_last() =~= v@.subrange(
            i as int,
            j as int - 1,
        ));
        j = j - 1;
    }
    copy_range(v, i, j)
}

/// The characters of `s`, in order.
pub fn chars_of(s: &str) -> (r: Vec<char>)
    ensures
        r@ == s@,
{
    broadcast use vstd::string::axiom_spec_iter, vstd::string::next_postcondition;

    let mut it = s.chars();
    let mut r: Vec<char> = Vec::new();
    loop
        invariant
            it.obeys_prophetic_iter_laws(),
            it.decrease() is Some,
            r@ + it.remaining() == s@,
        ensures
            r@ == s@,
        decreases it.decrease()->0,
    {
        let ghost before = r@;
        let ghost rem = it.remaining();
        match it.next() {
            Some(c) => {
                r.push(c);
                assert(rem =~= seq![c] + it.remaining());
                assert(r@ + it.remaining() =~= before + rem);
            },
            None => {
                assert(r@ =~= s@);
                break;
            },
        }
    }
    r
}

/// Relies on `String`'s `FromIterator<char>`: the string made of `c`, in order.
#[verifier::external_body]
pub(crate) fn string_of(c: &[char]) -> (r: String)
    ensures
        r@ == c@,
{
    c.iter().collect()
}

} // verus!

verus! {

/// ASCII upper case of one character; every other character is kept.
pub open spec fn upper_char(c: char) -> char {
    if 0x61 <= c as u32 <= 0x7a {
        ((c as u32 - 32) as u8) as char
    } else {
        c
    }
}

/// ASCII upper case of a character sequence.
pub open spec fn upper_ascii(s: Seq<char>) -> Seq<char> {
    s.map_values(|c: char| upper_char(c))
}

} // verus!

verus! {

/// `i` is the position of the first `c` in `s`.
pub open spec fn is_first_sep(s: Seq<char>, c: char, i: int) -> bool {
    &&& 0 <= i < s.len()
    &&& s[i] == c
    &&& forall|j: int| 0 <= j < i ==> s[j] != c
}

/// The first position of `c` in `s`, or -1.
pub open spec fn first_sep(s: Seq<char>, c: char) -> int {
    if exists|i: int| is_first_sep(s, c, i) {
        choose|i: int| is_first_sep(s, c, i)
    } else {
        -1
    }
}

/// The pieces of `s` between occurrences of `c`, as `str::split` yields them.
pub open spec fn split_on(s: Seq<char>, c: char) -> Seq<Seq<char>>
    decreases s.len(),
{
    if exists|i: int| is_first_sep(s, c, i) {
        let i = choose|i: int| is_first_sep(s, c, i);
        seq![s.subrange(0, i)] + split_on(s.subrange(i + 1, s.len() as int), c)
    } else {
        seq![s]
    }
}

pub open spec fn pieces_view(v: Seq<Vec<char>>) -> Seq<Seq<char>> {
    v.map_values(|p: Vec<char>| p@)
}

pub proof fn lemma_first_sep_at(s: Seq<char>, c: char, i: int)
    requires
        is_first_sep(s, c, i),
    ensures
        first_sep(s, c) == i,
        split_on(s, c) == seq![s.subrange(0, i)] + split_on(s.subrange(i + 1, s.len() as int), c),
{
    let j = choose|j: int| is_first_sep(s, c, j);
    assert(is_first_sep(s, c, j));
    if j < i {
        assert(s[j] != c);
    }
    if i < j {
        assert(s[i] != c);
    }
}

pub proof fn lemma_no_sep(s: Seq<char>, c: char)
    requires
        forall|j: int| 0 <= j < s.len() ==> s[j] != c,
    ensures
        first_sep(s, c) == -1,
        split_on(s, c) == seq![s],
{
    if exists|i: int| is_first_sep(s, c, i) {
        let i = choose|i: int| is_first_sep(s, c, i);
        assert(s[i] == c);
    }
}

/// Position of the first `c` in `s`.
pub fn find_char(s: &[char], c: char) -> (r: Option<usize>)
    ensures
        match r {
            Some(i) => i < s@.len() && first_sep(s@, c) == i,
            None => first_sep(s@, c) == -1 && forall|j: int| 0 <= j < s@.len() ==> s@[j] != c,
        },
{
    let mut i: usize = 0;
    while i < s.len()
        invariant
            i <= s@.len(),
            forall|j: int| 0 <= j < i ==> s@[j] != c,
        decreases s@.len() - i,
    {
        if s[i] == c {
            proof {
                assert(is_first_sep(s@, c, i as int));
                lemma_first_sep_at(s@, c, i as int);
            }
            return Some(i);
        }
        i = i + 1;
    }
    proof {
        lemma_no_sep(s@, c);
    }
    None
}

/// The pieces of `s` between occurrences of `c`.
pub fn split_chars(s: &[char], c: char) -> (r: Vec<Vec<char>>)
    ensures
        pieces_view(r@) == split_on(s@, c),
        r@.len() >= 1,
{
    let mut r: Vec<Vec<char>> = Vec::new();
    let n = s.len();
    let mut start: usize = 0;
    let mut i: usize = 0;
    assert(s@.subrange(0, n as int) =~= s@);
    while i < n
        invariant
            n == s@.len(),
            start <= i <= n,
            pieces_view(r@) + split_on(s@.subrange(start as int, n as int), c) == split_on(s@, c),
            forall|j: int| start <= j < i ==> s@[j] != c,
        decreases n - i,
    {
        if s[i] == c {
            let piece = copy_range(s, start, i);
            proof {
                let b = s@.subrange(start as int, n as int);
                let k = i - start;
                assert(is_first_sep(b, c, k));
                lemma_first_sep_at(b, c, k);
                assert(b.subrange(0, k) =~= s@.subrange(start as int, i as int));
                assert(b.subrange(k + 1, b.len() as int) =~= s@.subrange(i + 1, n as int));
            }
            let ghost before = pieces_view(r@);
            r.push(piece);
            proof {
                assert(pieces_view(r@) =~= before.push(s@.subrange(start as int, i as int)));
                assert(before + (seq![s@.subrange(start as int, i as int)] + split_on(
                    s@.subrange(i + 1, n as int),
                    c,
                )) =~= before.push(s@.subrange(start as int, i as int)) + split_on(
                    s@.subrange(i + 1, n as int),
                    c,
                ));
            }
            start = i + 1;
        }
        i = i + 1;
    }
    proof {
        lemma_no_sep(s@.subrange(start as int, n as int), c);
    }
    let last = copy_range(s, start, n);
    let ghost before = pieces_view(r@);
    r.push(last);
    assert(pieces_view(r@) =~= before + seq![s@.subrange(start as int, n as int)]);
    r
}

} // verus!

verus! {

/// Whether `a` and `b` hold the same characters.
pub fn chars_eq(a: &[char], b: &[char]) -> (r: bool)
    ensures
        r == (a@ == b@),
{
    if a.len() != b.len() {
        return false;
    }
    let mut i: usize = 0;
    while i < a.len()
        invariant
            a@.len() == b@.len(),
            i <= a@.len(),
            forall|j: int| 0 <= j < i ==> a@[j] == b@[j],
        decreases a@.len() - i,
    {
        if a[i] != b[i] {
            return false;
        }
        i = i + 1;
    }
    assert(a@ =~= b@);
    true
}

} // verus!

verus! {

/// What `str::to_lowercase` gives for `s`.
pub uninterp spec fn lower_of(s: Seq<char>) -> Seq<char>;

/// What `str::to_uppercase` gives for `s`.
pub uninterp spec fn upper_of(s: Seq<char>) -> Seq<char>;

/// Unicode lower case of `s`; on ASCII text, ASCII lower case.
pub open spec fn lowercase(s: Seq<char>) -> Seq<char> {
    if is_ascii_chars(s) {
        lower_ascii(s)
    } else {
        lower_of(s)
    }
}

/// Unicode upper case of `s`; on ASCII text, ASCII upper case.
pub open spec fn uppercase(s: Seq<char>) -> Seq<char> {
    if is_ascii_chars(s) {
        upper_ascii(s)
    } else {
        upper_of(s)
    }
}

/// Relies on `str::to_lowercase`: Unicode lower case, which depends on the
/// characters alone and maps the ASCII letters `A`-`Z` to `a`-`z`, leaving
/// every other ASCII character as it is.
#[verifier::external_body]
pub(crate) fn lower_chars(s: &[char]) -> (r: Vec<char>)
    ensures
        r@ == lower_of(s@),
        is_ascii_chars(s@) ==> r@ == lower_ascii(s@),
{
    s.iter().collect::<String>().to_lowercase().chars().collect()
}

/// Relies on `str::to_uppercase`: Unicode upper case, which depends on the
/// characters alone and maps the ASCII letters `a`-`z` to `A`-`Z`, leaving
/// every other ASCII character as it is.
#[verifier::external_body]
pub(crate) fn upper_chars(s: &[char]) -> (r: Vec<char>)
    ensures
        r@ == upper_of(s@),
        is_ascii_chars(s@) ==> r@ == upper_ascii(s@),
{
    s.iter().collect::<String>().to_uppercase().chars().collect()
}

/// Relies on `std::str::from_utf8`: it accepts exactly the valid UTF-8 byte
/// sequences, and `chars` then yields the characters that the bytes encode.
#[verifier::external_body]
pub(crate) fn decode_range(b: &[u8], lo: usize, hi: usize) -> (r: Option<Vec<char>>)
    requires
        lo <= hi <= b@.len(),
    ensures
        match r {
            Some(c) => valid_utf8(b@.subrange(lo as int, hi as int)) && c@ == decode_utf8(
                b@.subrange(lo as int, hi as int),
            ),
            None => !valid_utf8(b@.subrange(lo as int, hi as int)),
        },
{
    std::str::from_utf8(&b[lo..hi]).ok().map(|s| s.chars().collect())
}

/// `n` occurs in `h` at position `i`.
pub open spec fn occurs_at(h: Seq<char>, n: Seq<char>, i: int) -> bool {
    0 <= i && i + n.len() <= h.len() && h.subrange(i, i + n.len()) == n
}

/// `n` occurs somewhere in `h`, as `str::contains` finds it.
pub open spec fn contains(h: Seq<char>, n: Seq<char>) -> bool {
    exists|i: int| occurs_at(h, n, i)
}

fn matches_at(h: &[char], n: &[char], i: usize) -> (r: bool)
    requires
        i + n@.len() <= h@.len(),
    ensures
        r == occurs_at(h@, n@, i as int),
{
    let hl = h.len();
    let mut k: usize = 0;
    while k < n.len()
        invariant
            hl == h@.len(),
            i + n@.len() <= h@.len(),
            k <= n@.len(),
            forall|j: int| 0 <= j < k ==> h@[i + j] == n@[j],
        decreases n@.len() - k,
    {
        if h[i + k] != n[k] {
            assert(h@.subrange(i as int, i + n@.len())[k as int] != n@[k as int]);
            return false;
        }
        k = k + 1;
    }
    assert(h@.subrange(i as int, i + n@.len()) =~= n@);
    true
}

/// Whether `n` occurs in `h`.
pub fn contains_chars(h: &[char], n: &[char]) -> (r: bool)
    ensures
        r == contains(h@, n@),
{
    if n.len() > h.len() {
        return false;
    }
    if n.len() == 0 {
        assert(h@.subrange(0, 0) =~= n@);
        assert(occurs_at(h@, n@, 0));
        return true;
    }
    let end = h.len() - n.len() + 1;
    let mut i: usize = 0;
    while i < end
        invariant
            end == h@.len() - n@.len() + 1,
            forall|j: int| 0 <= j < i ==> !#[trigger] occurs_at(h@, n@, j),
        decreases end - i,
    {
        if matches_at(h, n, i) {
            return true;
        }
        i = i + 1;
    }
    false
}

/// Whether the characters of `pat` occur in `h`.
pub fn contains_str(h: &[char], pat: &str) -> (r: bool)
    ensures
        r == contains(h@, pat@),
{
    let p = chars_of(pat);
    contains_chars(h, p.as_slice())
}

/// Whether `h` holds exactly the characters of `w`.
pub fn is_str(h: &[char], w: &str) -> (r: bool)
    ensures
        r == (h@ == w@),
{
    let p = chars_of(w);
    chars_eq(h, p.as_slice())
}

} // verus!

verus! {

/// `s` starts with `p`, as `str::starts_with` tests it.
pub open spec fn starts_with(s: Seq<char>, p: Seq<char>) -> bool {
    p.len() <= s.len() && s.subrange(0, p.len() as int) == p
}

/// Whether `s` starts with the characters of `p`.
pub fn starts_with_str(s: &[char], p: &str) -> (r: bool)
    ensures
        r == starts_with(s@, p@),
{
    let pc = chars_of(p);
    if pc.len() > s.len() {
        return false;
    }
    let head = copy_range(s, 0, pc.len());
    chars_eq(head.as_slice(), pc.as_slice())
}

} // verus!

verus! {

/// The decimal digits of `n`, without leading zeros.
pub open spec fn dec_digits(n: nat) -> Seq<char>
    decreases n,
{
    if n < 10 {
        seq![((48 + n) as u8) as char]
    } else {
        dec_digits(n / 10) + seq![((48 + n % 10) as u8) as char]
    }
}

/// `n` in decimal, as `format!("{}", n)` writes it.
pub fn format_decimal(n: u64) -> (r: Vec<char>)
    ensures
        r@ == dec_digits(n as nat),
{
    let mut m: u64 = n;
    let mut acc: Vec<char> = Vec::new();
    while m >= 10
        invariant
            dec_digits(n as nat) == dec_digits(m as nat) + acc@,
        decreases m,
    {
        let c = ((48 + m % 10) as u8) as char;
        let ghost old_acc = acc@;
        acc.insert(0, c);
        assert(dec_digits(m as nat) == dec_digits((m / 10) as nat) + seq![c]);
        assert(acc@ =~= seq![c] + old_acc);
        assert(dec_digits(n as nat) =~= dec_digits((m / 10) as nat) + acc@);
        m = m / 10;
    }
    let c = ((48 + m) as u8) as char;
    acc.insert(0, c);
    assert(acc@ =~= dec_digits(n as nat));
    acc
}

/// Appends the characters of `s` to `v`.
pub fn push_str(v: &mut Vec<char>, s: &str)
    ensures
        final(v)@ == old(v)@ + s@,
{
    let mut c = chars_of(s);
    v.append(&mut c);
}

} // verus!
