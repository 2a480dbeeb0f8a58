//! Character-level text utilities shared by the rest of the library.
//!
//! Strings are handled through their `Seq<char>` views; executable helpers
//! work on `Vec<char>` buffers and convert to and from `String` at the edges.
use vstd::prelude::*;

verus! {

// ---------------------------------------------------------------------------
// Conversions between `str`/`String` and character buffers
// ---------------------------------------------------------------------------

/// Collects the characters of a string slice.
pub fn chars_of(s: &str) -> (res: Vec<char>)
    ensures
        res@ == s@,
{
    let mut v: Vec<char> = Vec::new();
    for c in it: s.chars()
        invariant
            v@ == it.seq().take(it.index() as int),
            it.seq() == s@,
    {
        v.push(c);
    }
    v
}

/// `String::push` from std: appends one character.
#[verifier::external_body]
fn string_push(s: &mut String, c: char)
    ensures
        final(s)@ == old(s)@.push(c),
{
    s.push(c);
}

/// Builds a `String` holding exactly the given characters.
pub fn string_of(v: &Vec<char>) -> (res: String)
    ensures
        res@ == v@,
{
    let mut s = String::new();
    let mut i: usize = 0;
    while i < v.len()
        invariant
            i <= v.len(),
            s@ == v@.take(i as int),
        decreases v.len() - i,
    {
        string_push(&mut s, v[i]);
        proof {
            assert(v@.take(i + 1) =~= v@.take(i as int).push(v@[i as int]));
        }
        i = i + 1;
    }
    proof {
        assert(v@.take(v.len() as int) =~= v@);
    }
    s
}

/// Concatenation of character buffers.
pub fn concat(a: &Vec<char>, b: &Vec<char>) -> (res: Vec<char>)
    ensures
        res@ == a@ + b@,
{
    let mut r: Vec<char> = Vec::new();
    let mut i: usize = 0;
    while i < a.len()
        invariant
            i <= a.len(),
            r@ == a@.take(i as int),
        decreases a.len() - i,
    {
        r.push(a[i]);
        proof {
            assert(a@.take(i + 1) =~= a@.take(i as int).push(a@[i as int]));
        }
        i = i + 1;
    }
    let mut j: usize = 0;
    while j < b.len()
        invariant
            j <= b.len(),
            r@ == a@ + b@.take(j as int),
        decreases b.len() - j,
    {
        r.push(b[j]);
        proof {
            assert(b@.take(j + 1) =~= b@.take(j as int).push(b@[j as int]));
        }
        j = j + 1;
    }
    proof {
        assert(b@.take(b.len() as int) =~= b@);
        assert(a@.take(a.len() as int) =~= a@);
    }
    r
}

/// Concatenation of a string's characters with those of a literal.
pub fn concat_str(a: &Vec<char>, b: &str) -> (res: Vec<char>)
    ensures
        res@ == a@ + b@,
{
    let bc = chars_of(b);
    concat(a, &bc)
}

/// A contiguous piece of a character buffer.
pub fn slice_chars(v: &Vec<char>, from: usize, to: usize) -> (res: Vec<char>)
    requires
        from <= to <= v.len(),
    ensures
        res@ == v@.subrange(from as int, to as int),
{
    let mut r: Vec<char> = Vec::new();
    let mut i: usize = from;
    while i < to
        invariant
            from <= i <= to <= v.len(),
            r@ == v@.subrange(from as int, i as int),
        decreases to - i,
    {
        r.push(v[i]);
        proof {
            assert(v@.subrange(from as int, i + 1) =~= v@.subrange(from as int, i as int).push(
                v@[i as int],
            ));
        }
        i = i + 1;
    }
    r
}

// ---------------------------------------------------------------------------
// Comparisons and searches
// ---------------------------------------------------------------------------

/// Character-wise equality of two buffers.
pub fn chars_eq(a: &Vec<char>, b: &Vec<char>) -> (res: bool)
    ensures
        res == (a@ == b@),
{
    if a.len() != b.len() {
        return false;
    }
    let mut i: usize = 0;
    while i < a.len()
        invariant
            a.len() == b.len(),
            i <= a.len(),
            forall|k: int| 0 <= k < i ==> a@[k] == b@[k],
        decreases a.len() - i,
    {
        if a[i] != b[i] {
            return false;
        }
        i = i + 1;
    }
    proof {
        assert(a@ =~= b@);
    }
    true
}

/// Equality of a buffer with a string slice.
pub fn eq_str(a: &Vec<char>, b: &str) -> (res: bool)
    ensures
        res == (a@ == b@),
{
    let bc = chars_of(b);
    chars_eq(a, &bc)
}

/// `needle` occurs in `hay` starting at position `i`.
pub open spec fn occurs_at(hay: Seq<char>, needle: Seq<char>, i: int) -> bool {
    0 <= i && i + needle.len() <= hay.len() && hay.subrange(i, i + needle.len()) == needle
}

/// `needle` occurs somewhere in `hay` (the empty needle occurs everywhere).
pub open spec fn contains_seq(hay: Seq<char>, needle: Seq<char>) -> bool {
    exists|i: int| occurs_at(hay, needle, i)
}

/// `hay` begins with `prefix`.
pub open spec fn starts_with_seq(hay: Seq<char>, prefix: Seq<char>) -> bool {
    prefix.len() <= hay.len() && hay.take(prefix.len() as int) == prefix
}

/// `hay` ends with `suffix`.
pub open spec fn ends_with_seq(hay: Seq<char>, suffix: Seq<char>) -> bool {
    suffix.len() <= hay.len() && hay.skip(hay.len() - suffix.len()) == suffix
}

fn matches_at(hay: &Vec<char>, needle: &Vec<char>, i: usize) -> (res: bool)
    requires
        i + needle.len() <= hay.len(),
    ensures
        res == occurs_at(hay@, needle@, i as int),
{
    let mut k: usize = 0;
    while k < needle.len()
        invariant
            i + needle.len() <= hay.len(),
            k <= needle.len(),
            forall|j: int| 0 <= j < k ==> hay@[i + j] == needle@[j],
        decreases needle.len() - k,
    {
        if hay[i + k] != needle[k] {
            proof {
                assert(hay@.subrange(i as int, i + needle.len())[k as int] != needle@[k as int]);
            }
            return false;
        }
        k = k + 1;
    }
    proof {
        assert(hay@.subrange(i as int, i + needle.len()) =~= needle@);
    }
    true
}

/// The first position where `needle` occurs in `hay`, if any.
#[verifier::opaque]
pub open spec fn first_occurrence(hay: Seq<char>, needle: Seq<char>) -> Option<int> {
    if contains_seq(hay, needle) {
        Some(
            choose|i: int|
                occurs_at(hay, needle, i) && forall|j: int| 0 <= j < i ==> !occurs_at(hay, needle, j),
        )
    } else {
        None
    }
}

proof fn lemma_first_occurrence_is(hay: Seq<char>, needle: Seq<char>, i: int)
    requires
        occurs_at(hay, needle, i),
        forall|j: int| 0 <= j < i ==> !occurs_at(hay, needle, j),
    ensures
        first_occurrence(hay, needle) == Some(i),
{
    reveal(first_occurrence);
    assert(contains_seq(hay, needle));
    let c = choose|c: int|
        occurs_at(hay, needle, c) && forall|j: int| 0 <= j < c ==> !occurs_at(hay, needle, j);
    assert(occurs_at(hay, needle, c) && forall|j: int| 0 <= j < c ==> !occurs_at(hay, needle, j));
    if c < i {
        assert(!occurs_at(hay, needle, c));
    }
    if c > i {
        assert(!occurs_at(hay, needle, i));
    }
}

/// Position of the first occurrence of `needle` (as `str::find` counts it in
/// characters).
pub fn find_str(hay: &Vec<char>, needle: &str) -> (res: Option<usize>)
    ensures
        match res {
            Some(i) => first_occurrence(hay@, needle@) == Some(i as int) && occurs_at(
                hay@,
                needle@,
                i as int,
            ),
            None => first_occurrence(hay@, needle@) is None,
        },
{
    let nv = chars_of(needle);
    if nv.len() > hay.len() {
        proof {
            reveal(first_occurrence);
            assert forall|i: int| !occurs_at(hay@, nv@, i) by {}
        }
        return None;
    }
    let last = hay.len() - nv.len();
    let mut i: usize = 0;
    while i < last
        invariant
            last + nv.len() == hay.len(),
            nv@ == needle@,
            i <= last,
            forall|j: int| 0 <= j < i ==> !occurs_at(hay@, nv@, j),
        decreases last - i,
    {
        if matches_at(hay, &nv, i) {
            proof {
                lemma_first_occurrence_is(hay@, nv@, i as int);
            }
            return Some(i);
        }
        i = i + 1;
    }
    if matches_at(hay, &nv, last) {
        proof {
            lemma_first_occurrence_is(hay@, nv@, last as int);
        }
        return Some(last);
    }
    proof {
        reveal(first_occurrence);
        assert forall|j: int| !occurs_at(hay@, nv@, j) by {
            if 0 <= j && j < i {
            }
        }
    }
    None
}

/// Substring search.
pub fn contains(hay: &Vec<char>, needle: &Vec<char>) -> (res: bool)
    ensures
        res == contains_seq(hay@, needle@),
{
    if needle.len() > hay.len() {
        proof {
            assert forall|i: int| !occurs_at(hay@, needle@, i) by {}
        }
        return false;
    }
    let last = hay.len() - needle.len();
    let mut i: usize = 0;
    while i < last
        invariant
            last + needle.len() == hay.len(),
            i <= last,
            forall|j: int| 0 <= j < i ==> !occurs_at(hay@, needle@, j),
        decreases last - i,
    {
        if matches_at(hay, needle, i) {
            return true;
        }
        i = i + 1;
    }
    if matches_at(hay, needle, last) {
        return true;
    }
    proof {
        assert forall|j: int| !occurs_at(hay@, needle@, j) by {
            if 0 <= j && j < i {
            }
        }
    }
    false
}

/// Substring search for a literal.
pub fn contains_str(hay: &Vec<char>, needle: &str) -> (res: bool)
    ensures
        res == contains_seq(hay@, needle@),
{
    let n = chars_of(needle);
    contains(hay, &n)
}

/// Prefix test.
pub fn starts_with(hay: &Vec<char>, prefix: &Vec<char>) -> (res: bool)
    ensures
        res == starts_with_seq(hay@, prefix@),
{
    if prefix.len() > hay.len() {
        return false;
    }
    let r = matches_at(hay, prefix, 0);
    proof {
        assert(hay@.subrange(0, prefix@.len() as int) =~= hay@.take(prefix@.len() as int));
    }
    r
}

/// Prefix test against a literal.
pub fn starts_with_str(hay: &Vec<char>, prefix: &str) -> (res: bool)
    ensures
        res == starts_with_seq(hay@, prefix@),
{
    let p = chars_of(prefix);
    starts_with(hay, &p)
}

/// Suffix test.
pub fn ends_with(hay: &Vec<char>, suffix: &Vec<char>) -> (res: bool)
    ensures
        res == ends_with_seq(hay@, suffix@),
{
    if suffix.len() > hay.len() {
        return false;
    }
    let start = hay.len() - suffix.len();
    let r = matches_at(hay, suffix, start);
    proof {
        assert(hay@.subrange(start as int, start + suffix@.len()) =~= hay@.skip(start as int));
    }
    r
}

/// Suffix test against a literal.
pub fn ends_with_str(hay: &Vec<char>, suffix: &str) -> (res: bool)
    ensures
        res == ends_with_seq(hay@, suffix@),
{
    let p = chars_of(suffix);
    ends_with(hay, &p)
}

/// Index of the first occurrence of `c`, if any.
pub fn find_char(v: &Vec<char>, c: char) -> (res: Option<usize>)
    ensures
        match res {
            Some(i) => i < v@.len() && v@[i as int] == c && forall|j: int|
                0 <= j < i ==> v@[j] != c,
            None => forall|j: int| 0 <= j < v@.len() ==> v@[j] != c,
        },
{
    let mut i: usize = 0;
    while i < v.len()
        invariant
            i <= v.len(),
            forall|j: int| 0 <= j < i ==> v@[j] != c,
        decreases v.len() - i,
    {
        if v[i] == c {
            return Some(i);
        }
        i = i + 1;
    }
    None
}

/// Index of the last occurrence of `c`, if any.
pub fn rfind_char(v: &Vec<char>, c: char) -> (res: Option<usize>)
    ensures
        match res {
            Some(i) => i < v@.len() && v@[i as int] == c && forall|j: int|
                i < j < v@.len() ==> v@[j] != c,
            None => forall|j: int| 0 <= j < v@.len() ==> v@[j] != c,
        },
{
    let mut i: usize = v.len();
    while i > 0
        invariant
            i <= v.len(),
            forall|j: int| i <= j < v@.len() ==> v@[j] != c,
        decreases i,
    {
        if v[i - 1] == c {
            return Some(i - 1);
        }
        i = i - 1;
    }
    None
}

/// Whether `x` is an element of `v`.
pub fn vec_contains_string(v: &Vec<String>, x: &String) -> (res: bool)
    ensures
        res == exists|i: int| 0 <= i < v@.len() && v@[i]@ == x@,
{
    let mut i: usize = 0;
    while i < v.len()
        invariant
            i <= v.len(),
            forall|j: int| 0 <= j < i ==> v@[j]@ != x@,
        decreases v.len() - i,
    {
        if v[i] == *x {
            return true;
        }
        i = i + 1;
    }
    false
}

// ---------------------------------------------------------------------------
// Whitespace trimming (Unicode `White_Space`, as `char::is_whitespace`)
// ---------------------------------------------------------------------------

/// The characters with the Unicode `White_Space` property.
pub open spec fn is_ws(c: char) -> bool {
    let u = c as u32;
    ||| 0x9 <= u <= 0xD
    ||| u == 0x20
    ||| u == 0x85
    ||| u == 0xA0
    ||| u == 0x1680
    ||| 0x2000 <= u <= 0x200A
    ||| u == 0x2028
    ||| u == 0x2029
    ||| u == 0x202F
    ||| u == 0x205F
    ||| u == 0x3000
}

/// Executable form of [`is_ws`].
pub fn is_whitespace(c: char) -> (res: bool)
    ensures
        res == is_ws(c),
{
    let u = c as u32;
    (0x9 <= u && u <= 0xD) || u == 0x20 || u == 0x85 || u == 0xA0 || u == 0x1680 || (0x2000 <= u
        && u <= 0x200A) || u == 0x2028 || u == 0x2029 || u == 0x202F || u == 0x205F || u == 0x3000
}

/// Leading whitespace removed.
pub open spec fn trim_start_seq(s: Seq<char>) -> Seq<char>
    decreases s.len(),
{
    if s.len() > 0 && is_ws(s[0]) {
        trim_start_seq(s.drop_first())
    } else {
        s
    }
}

/// Trailing whitespace removed.
pub open spec fn trim_end_seq(s: Seq<char>) -> Seq<char>
    decreases s.len(),
{
    if s.len() > 0 && is_ws(s.last()) {
        trim_end_seq(s.drop_last())
    } else {
        s
    }
}

/// Leading and trailing whitespace removed (as `str::trim`).
pub open spec fn trim_seq(s: Seq<char>) -> Seq<char> {
    trim_end_seq(trim_start_seq(s))
}

/// Leading and trailing whitespace removed.
pub fn trim(v: &Vec<char>) -> (res: Vec<char>)
    ensures
        res@ == trim_seq(v@),
{
    let mut lo: usize = 0;
    proof {
        assert(v@.skip(0) =~= v@);
    }
    while lo < v.len() && is_whitespace(v[lo])
        invariant
            lo <= v.len(),
            trim_start_seq(v@.skip(lo as int)) == trim_start_seq(v@),
        decreases v.len() - lo,
    {
        proof {
            assert(v@.skip(lo as int).drop_first() =~= v@.skip(lo + 1));
        }
        lo = lo + 1;
    }
    let ghost st = v@.skip(lo as int);
    assert(trim_start_seq(st) == st);
    let mut hi: usize = v.len();
    while hi > lo && is_whitespace(v[hi - 1])
        invariant
            lo <= hi <= v.len(),
            st == v@.skip(lo as int),
            trim_end_seq(v@.subrange(lo as int, hi as int)) == trim_end_seq(st),
        decreases hi,
    {
        proof {
            assert(v@.subrange(lo as int, hi as int).drop_last() =~= v@.subrange(
                lo as int,
                hi - 1,
            ));
        }
        hi = hi - 1;
    }
    proof {
        assert(v@.subrange(lo as int, v.len() as int) =~= st);
    }
    slice_chars(v, lo, hi)
}

// ---------------------------------------------------------------------------
// Case folding (std)
// ---------------------------------------------------------------------------

/// The result of std's `str::to_lowercase` on a string with the given characters.
pub uninterp spec fn lowercase(s: Seq<char>) -> Seq<char>;

/// A character with `A` to `Z` made lowercase, others unchanged.
pub open spec fn ascii_lower_char(c: char) -> char {
    if 'A' <= c && c <= 'Z' {
        (((c as u8) + 32) as u8) as char
    } else {
        c
    }
}

/// An ASCII text with its capital letters made lowercase.
pub open spec fn ascii_lowercase(s: Seq<char>) -> Seq<char> {
    Seq::new(s.len(), |i: int| ascii_lower_char(s[i]))
}

/// `str::to_lowercase` from std: the Unicode lowercase mapping of a string,
/// named by [`lowercase`]; on ASCII text it lowers the capital letters `A` to
/// `Z` and keeps every other character.
#[verifier::external_body]
pub(crate) fn to_lowercase(s: &str) -> (res: String)
    ensures
        res@ == lowercase(s@),
        vstd::utf8::is_ascii_chars(s@) ==> res@ == ascii_lowercase(s@),
{
    s.to_lowercase()
}

/// Lowercase form of a character buffer.
pub fn lower_chars(v: &Vec<char>) -> (res: Vec<char>)
    ensures
        res@ == lowercase(v@),
        vstd::utf8::is_ascii_chars(v@) ==> res@ == ascii_lowercase(v@),
{
    let s = string_of(v);
    let l = to_lowercase(s.as_str());
    chars_of(l.as_str())
}

// ---------------------------------------------------------------------------
// Decimal formatting of integers
// ---------------------------------------------------------------------------

/// The decimal digit character for `d < 10`.
pub open spec fn digit_char(d: nat) -> char {
    if d == 0 { '0' }
    else if d == 1 { '1' }
    else if d == 2 { '2' }
    else if d == 3 { '3' }
    else if d == 4 { '4' }
    else if d == 5 { '5' }
    else if d == 6 { '6' }
    else if d == 7 { '7' }
    else if d == 8 { '8' }
    else { '9' }
}

/// The shortest decimal rendering of a natural number.
pub open spec fn nat_decimal(n: nat) -> Seq<char>
    decreases n,
{
    if n < 10 {
        seq![digit_char(n)]
    } else {
        nat_decimal(n / 10).push(digit_char(n % 10))
    }
}

/// The decimal rendering of an integer, with a leading `-` when negative.
pub open spec fn int_decimal(n: int) -> Seq<char> {
    if n < 0 {
        seq!['-'] + nat_decimal((-n) as nat)
    } else {
        nat_decimal(n as nat)
    }
}

fn digit(d: u64) -> (c: char)
    requires
        d < 10,
    ensures
        c == digit_char(d as nat),
{
    if d == 0 { '0' }
    else if d == 1 { '1' }
    else if d == 2 { '2' }
    else if d == 3 { '3' }
    else if d == 4 { '4' }
    else if d == 5 { '5' }
    else if d == 6 { '6' }
    else if d == 7 { '7' }
    else if d == 8 { '8' }
    else { '9' }
}

/// Decimal digits of an unsigned integer.
pub fn u64_decimal(n: u64) -> (res: Vec<char>)
    ensures
        res@ == nat_decimal(n as nat),
    decreases n,
{
    if n < 10 {
        let mut r: Vec<char> = Vec::new();
        r.push(digit(n));
        proof {
            assert(r@ =~= seq![digit_char(n as nat)]);
        }
        r
    } else {
        let mut r = u64_decimal(n / 10);
        r.push(digit(n % 10));
        r
    }
}

/// Decimal rendering of a signed integer.
pub fn i64_decimal(n: i64) -> (res: Vec<char>)
    ensures
        res@ == int_decimal(n as int),
{
    if n < 0 {
        let m: u64 = if n == i64::MIN {
            9223372036854775808u64
        } else {
            (-n) as u64
        };
        let d = u64_decimal(m);
        let mut r: Vec<char> = Vec::new();
        r.push('-');
        let out = concat(&r, &d);
        proof {
            assert(r@ =~= seq!['-']);
        }
        out
    } else {
        u64_decimal(n as u64)
    }
}

// ---------------------------------------------------------------------------
// Hexadecimal encoding of bytes
// ---------------------------------------------------------------------------

/// Lowercase hexadecimal digit for a nibble.
pub open spec fn hex_digit_lower(d: nat) -> char {
    if d < 10 {
        digit_char(d)
    } else if d == 10 { 'a' }
    else if d == 11 { 'b' }
    else if d == 12 { 'c' }
    else if d == 13 { 'd' }
    else if d == 14 { 'e' }
    else { 'f' }
}

/// Uppercase hexadecimal digit for a nibble.
pub open spec fn hex_digit_upper(d: nat) -> char {
    if d < 10 {
        digit_char(d)
    } else if d == 10 { 'A' }
    else if d == 11 { 'B' }
    else if d == 12 { 'C' }
    else if d == 13 { 'D' }
    else if d == 14 { 'E' }
    else { 'F' }
}

/// Two lowercase hex digits per byte (as `format!("{:02x}", b)` joined).
pub open spec fn hex_lower(bytes: Seq<u8>) -> Seq<char>
    decreases bytes.len(),
{
    if bytes.len() == 0 {
        Seq::empty()
    } else {
        hex_lower(bytes.drop_last()) + seq![
            hex_digit_lower((bytes.last() / 16) as nat),
            hex_digit_lower((bytes.last() % 16) as nat),
        ]
    }
}

/// Two uppercase hex digits per byte, bytes separated by `:`.
pub open spec fn hex_upper_colon(bytes: Seq<u8>) -> Seq<char>
    decreases bytes.len(),
{
    if bytes.len() == 0 {
        Seq::empty()
    } else if bytes.len() == 1 {
        seq![hex_digit_upper((bytes[0] / 16) as nat), hex_digit_upper((bytes[0] % 16) as nat)]
    } else {
        hex_upper_colon(bytes.drop_last()) + seq![
            ':',
            hex_digit_upper((bytes.last() / 16) as nat),
            hex_digit_upper((bytes.last() % 16) as nat),
        ]
    }
}

fn hex_char_lower(d: u8) -> (c: char)
    requires
        d < 16,
    ensures
        c == hex_digit_lower(d as nat),
{
    if d < 10 {
        digit(d as u64)
    } else if d == 10 { 'a' }
    else if d == 11 { 'b' }
    else if d == 12 { 'c' }
    else if d == 13 { 'd' }
    else if d == 14 { 'e' }
    else { 'f' }
}

fn hex_char_upper(d: u8) -> (c: char)
    requires
        d < 16,
    ensures
        c == hex_digit_upper(d as nat),
{
    if d < 10 {
        digit(d as u64)
    } else if d == 10 { 'A' }
    else if d == 11 { 'B' }
    else if d == 12 { 'C' }
    else if d == 13 { 'D' }
    else if d == 14 { 'E' }
    else { 'F' }
}

/// Lowercase hexadecimal encoding of bytes.
pub fn hex_encode_lower(bytes: &[u8]) -> (res: Vec<char>)
    ensures
        res@ == hex_lower(bytes@),
{
    let mut r: Vec<char> = Vec::new();
    let mut i: usize = 0;
    while i < bytes.len()
        invariant
            i <= bytes.len(),
            r@ == hex_lower(bytes@.take(i as int)),
        decreases bytes.len() - i,
    {
        let b = bytes[i];
        r.push(hex_char_lower(b / 16));
        r.push(hex_char_lower(b % 16));
        proof {
            assert(bytes@.take(i + 1).drop_last() =~= bytes@.take(i as int));
            assert(r@ =~= hex_lower(bytes@.take(i + 1)));
        }
        i = i + 1;
    }
    proof {
        assert(bytes@.take(bytes.len() as int) =~= bytes@);
    }
    r
}

/// Uppercase, colon-separated hexadecimal encoding of bytes.
pub fn hex_encode_upper_colon(bytes: &[u8]) -> (res: Vec<char>)
    ensures
        res@ == hex_upper_colon(bytes@),
{
    let mut r: Vec<char> = Vec::new();
    let mut i: usize = 0;
    while i < bytes.len()
        invariant
            i <= bytes.len(),
            r@ == hex_upper_colon(bytes@.take(i as int)),
        decreases bytes.len() - i,
    {
        let b = bytes[i];
        if i > 0 {
            r.push(':');
        }
        r.push(hex_char_upper(b / 16));
        r.push(hex_char_upper(b % 16));
        proof {
            assert(bytes@.take(i + 1).drop_last() =~= bytes@.take(i as int));
            if i == 0 {
                assert(bytes@.take(1)[0] == b);
            }
            assert(r@ =~= hex_upper_colon(bytes@.take(i + 1)));
        }
        i = i + 1;
    }
    proof {
        assert(bytes@.take(bytes.len() as int) =~= bytes@);
    }
    r
}

} // verus!
