//! Byte and character helpers: decimal rendering of integers and concatenation.
use vstd::prelude::*;

verus! {

/// ASCII decimal digits of `n`, most significant first, without leading zeros.
pub open spec fn decimal_digits(n: nat) -> Seq<u8>
    decreases n,
{
    if n < 10 {
        seq![(48 + n) as u8]
    } else {
        decimal_digits(n / 10).push((48 + n % 10) as u8)
    }
}

/// The decimal rendering of `n` as characters (what `format!("{}", n)` prints).
pub open spec fn decimal_chars(n: nat) -> Seq<char>
    decreases n,
{
    if n < 10 {
        seq![(48 + n) as char]
    } else {
        decimal_chars(n / 10).push((48 + n % 10) as char)
    }
}

/// Renders `n` in decimal as ASCII bytes.
pub fn decimal_bytes(n: u64) -> (r: Vec<u8>)
    ensures
        r@ == decimal_digits(n as nat),
    decreases n,
{
    if n < 10 {
        let mut v: Vec<u8> = Vec::new();
        v.push(48u8 + (n as u8));
        v
    } else {
        let mut v = decimal_bytes(n / 10);
        v.push(48u8 + ((n % 10) as u8));
        v
    }
}

/// The one-character string holding the decimal digit `d`.
fn digit_str(d: u64) -> (r: &'static str)
    requires
        d < 10,
    ensures
        r@ == seq![(48 + d) as char],
{
    proof {
        reveal_strlit("0");
        reveal_strlit("1");
        reveal_strlit("2");
        reveal_strlit("3");
        reveal_strlit("4");
        reveal_strlit("5");
        reveal_strlit("6");
        reveal_strlit("7");
        reveal_strlit("8");
        reveal_strlit("9");
    }
    if d == 0 {
        "0"
    } else if d == 1 {
        "1"
    } else if d == 2 {
        "2"
    } else if d == 3 {
        "3"
    } else if d == 4 {
        "4"
    } else if d == 5 {
        "5"
    } else if d == 6 {
        "6"
    } else if d == 7 {
        "7"
    } else if d == 8 {
        "8"
    } else {
        "9"
    }
}

/// Appends the decimal rendering of `n` to `s`.
pub fn push_decimal(s: &mut String, n: u64)
    ensures
        final(s)@ == old(s)@ + decimal_chars(n as nat),
    decreases n,
{
    if n < 10 {
        s.append(digit_str(n));
    } else {
        push_decimal(s, n / 10);
        s.append(digit_str(n % 10));
        proof {
            assert(decimal_chars(n as nat) == decimal_chars((n / 10) as nat).push(
                (48 + n % 10) as char,
            ));
        }
    }
}

/// Renders `n` in decimal as a `String`.
pub fn decimal_string(n: u64) -> (r: String)
    ensures
        r@ == decimal_chars(n as nat),
{
    let mut s = String::new();
    push_decimal(&mut s, n);
    proof {
        assert(s@ =~= decimal_chars(n as nat));
    }
    s
}

/// Appends every byte of `src` to `dst`.
pub fn push_all(dst: &mut Vec<u8>, src: &[u8])
    ensures
        final(dst)@ == old(dst)@ + src@,
{
    let ghost start = dst@;
    let mut i: usize = 0;
    while i < src.len()
        invariant
            i <= src@.len(),
            dst@ == start + src@.subrange(0, i as int),
        decreases src@.len() - i,
    {
        dst.push(src[i]);
        i = i + 1;
        proof {
            assert(src@.subrange(0, i as int) == src@.subrange(0, i - 1).push(src@[i - 1]));
        }
    }
    proof {
        assert(src@.subrange(0, src@.len() as int) == src@);
    }
}

/// Builds a `String` holding `a` followed by `b`.
pub fn concat_str(a: &str, b: &str) -> (r: String)
    ensures
        r@ == a@ + b@,
{
    let mut s = String::new();
    s.append(a);
    s.append(b);
    proof {
        assert(s@ =~= a@ + b@);
    }
    s
}

} // verus!

verus! {

/// The character sequences held by a vector of strings.
pub open spec fn string_views(v: Seq<String>) -> Seq<Seq<char>> {
    v.map_values(|s: String| s@)
}

/// The position of the first string in `v` equal to `s`, if any.
pub fn find_string(v: &Vec<String>, s: &String) -> (r: Option<usize>)
    ensures
        r matches Some(i) ==> i < v@.len() && v@[i as int]@ == s@ && forall|j: int|
            0 <= j < i ==> #[trigger] v@[j]@ != s@,
        r is None ==> forall|j: int| 0 <= j < v@.len() ==> #[trigger] v@[j]@ != s@,
        r is None <==> !string_views(v@).contains(s@),
{
    let mut i: usize = 0;
    while i < v.len()
        invariant
            i <= v@.len(),
            forall|j: int| 0 <= j < i ==> #[trigger] v@[j]@ != s@,
        decreases v@.len() - i,
    {
        if v[i] == *s {
            proof {
                assert(string_views(v@)[i as int] == s@);
            }
            return Some(i);
        }
        i = i + 1;
    }
    proof {
        if string_views(v@).contains(s@) {
            let k = choose|k: int| 0 <= k < string_views(v@).len() && string_views(v@)[k] == s@;
            assert(v@[k]@ == s@);
        }
    }
    None
}

} // verus!

verus! {

/// The characters of `s`, in order.
pub fn chars_of(s: &str) -> (r: Vec<char>)
    ensures
        r@ == s@,
{
    let mut v: Vec<char> = Vec::new();
    for c in it: s.chars()
        invariant
            v@ == it.seq().take(it.index() as int),
    {
        v.push(c);
    }
    v
}

} // verus!

verus! {

/// `String::push` appends one character.
pub assume_specification[ std::string::String::push ](s: &mut std::string::String, ch: char)
    ensures
        final(s)@ == old(s)@.push(ch),
;

/// Builds the string made of `cs[a..b]`.
pub fn string_of(cs: &Vec<char>, a: usize, b: usize) -> (r: String)
    requires
        a <= b <= cs@.len(),
    ensures
        r@ == cs@.subrange(a as int, b as int),
{
    let mut s = String::new();
    let mut i: usize = a;
    while i < b
        invariant
            a <= i <= b <= cs@.len(),
            s@ == cs@.subrange(a as int, i as int),
        decreases b - i,
    {
        s.push(cs[i]);
        i = i + 1;
        proof {
            assert(s@ =~= cs@.subrange(a as int, i as int));
        }
    }
    s
}

/// Whether `c` is white space in Unicode's sense (`char::is_whitespace`).
pub open spec fn is_ws(c: char) -> bool {
    ||| '\t' <= c <= '\r'
    ||| c == ' '
    ||| c == '\u{85}'
    ||| c == '\u{A0}'
    ||| c == '\u{1680}'
    ||| '\u{2000}' <= c <= '\u{200A}'
    ||| c == '\u{2028}'
    ||| c == '\u{2029}'
    ||| c == '\u{202F}'
    ||| c == '\u{205F}'
    ||| c == '\u{3000}'
}

/// Whether `c` is white space in Unicode's sense.
pub fn char_is_ws(c: char) -> (r: bool)
    ensures
        r == is_ws(c),
{
    ('\t' <= c && c <= '\r') || c == ' ' || c == '\u{85}' || c == '\u{A0}' || c == '\u{1680}' || (
    '\u{2000}' <= c && c <= '\u{200A}') || c == '\u{2028}' || c == '\u{2029}' || c == '\u{202F}'
        || c == '\u{205F}' || c == '\u{3000}'
}

/// `s` without its leading white space.
pub open spec fn trim_start(s: Seq<char>) -> Seq<char>
    decreases s.len(),
{
    if s.len() > 0 && is_ws(s[0]) {
        trim_start(s.drop_first())
    } else {
        s
    }
}

/// `s` without its trailing white space.
pub open spec fn trim_end(s: Seq<char>) -> Seq<char>
    decreases s.len(),
{
    if s.len() > 0 && is_ws(s.last()) {
        trim_end(s.drop_last())
    } else {
        s
    }
}

/// `s` without leading and trailing white space (`str::trim`).
pub open spec fn trim(s: Seq<char>) -> Seq<char> {
    trim_end(trim_start(s))
}

/// The bounds of `cs[a..b]` with its leading and trailing white space cut off.
pub fn trim_bounds(cs: &Vec<char>, a: usize, b: usize) -> (r: (usize, usize))
    requires
        a <= b <= cs@.len(),
    ensures
        a <= r.0 <= r.1 <= b,
        cs@.subrange(r.0 as int, r.1 as int) == trim(cs@.subrange(a as int, b as int)),
{
    let mut s: usize = a;
    while s < b && char_is_ws(cs[s])
        invariant
            a <= s <= b <= cs@.len(),
            trim_start(cs@.subrange(a as int, b as int)) == trim_start(cs@.subrange(s as int, b as int)),
        decreases b - s,
    {
        proof {
            assert(cs@.subrange(s as int, b as int).drop_first() =~= cs@.subrange(s + 1, b as int));
        }
        s = s + 1;
    }
    let mut e: usize = b;
    while e > s && char_is_ws(cs[e - 1])
        invariant
            a <= s <= e <= b <= cs@.len(),
            trim_end(cs@.subrange(s as int, b as int)) == trim_end(cs@.subrange(s as int, e as int)),
        decreases e - s,
    {
        proof {
            assert(cs@.subrange(s as int, e as int).drop_last() =~= cs@.subrange(s as int, e - 1));
        }
        e = e - 1;
    }
    (s, e)
}

/// The pieces of `s` between occurrences of `sep` (`str::split`): one more
/// piece than there are separators.
pub open spec fn split_char(s: Seq<char>, sep: char) -> Seq<Seq<char>>
    decreases s.len(),
{
    if s.len() == 0 {
        seq![Seq::<char>::empty()]
    } else {
        let rest = split_char(s.drop_last(), sep);
        if s.last() == sep {
            rest.push(Seq::<char>::empty())
        } else {
            rest.update(rest.len() - 1, rest.last().push(s.last()))
        }
    }
}

/// Splitting always yields at least one piece.
pub proof fn lemma_split_char_nonempty(s: Seq<char>, sep: char)
    ensures
        split_char(s, sep).len() >= 1,
    decreases s.len(),
{
    if s.len() > 0 {
        lemma_split_char_nonempty(s.drop_last(), sep);
    }
}

/// The position of the first `c` in `s`, or the length of `s` when there is none.
pub open spec fn index_of(s: Seq<char>, c: char) -> int
    decreases s.len(),
{
    if s.len() == 0 {
        0
    } else if s[0] == c {
        0
    } else {
        1 + index_of(s.drop_first(), c)
    }
}

/// The position of the first `c` in `cs[a..b]`, counted from the start of
/// `cs`; `b` when there is none.
pub fn find_char(cs: &Vec<char>, a: usize, b: usize, c: char) -> (r: usize)
    requires
        a <= b <= cs@.len(),
    ensures
        a <= r <= b,
        r - a == index_of(cs@.subrange(a as int, b as int), c),
{
    let mut k: usize = a;
    while k < b && cs[k] != c
        invariant
            a <= k <= b <= cs@.len(),
            index_of(cs@.subrange(a as int, b as int), c) == (k - a) + index_of(
                cs@.subrange(k as int, b as int),
                c,
            ),
        decreases b - k,
    {
        proof {
            assert(cs@.subrange(k as int, b as int).drop_first() =~= cs@.subrange(k + 1, b as int));
        }
        k = k + 1;
    }
    k
}

/// Whether `needle` occurs in `hay` (`str::contains`).
pub open spec fn is_substr(hay: Seq<char>, needle: Seq<char>) -> bool {
    exists|i: int|
        0 <= i && i + needle.len() <= hay.len() && #[trigger] hay.subrange(i, i + needle.len())
            == needle
}

/// Whether `needle` occurs in `hay` at position `i`.
fn matches_at(hay: &Vec<char>, needle: &Vec<char>, i: usize) -> (r: bool)
    requires
        i + needle@.len() <= hay@.len(),
    ensures
        r == (hay@.subrange(i as int, i + needle@.len()) == needle@),
{
    let hlen = hay.len();
    let n = needle.len();
    let mut k: usize = 0;
    while k < n
        invariant
            n == needle@.len(),
            hlen == hay@.len(),
            i + n <= hlen,
            k <= n,
            forall|m: int| 0 <= m < k ==> hay@[i + m] == needle@[m],
        decreases n - k,
    {
        if hay[i + k] != needle[k] {
            proof {
                assert(hay@.subrange(i as int, i + n)[k as int] != needle@[k as int]);
            }
            return false;
        }
        k = k + 1;
    }
    proof {
        assert(hay@.subrange(i as int, i + n) =~= needle@);
    }
    true
}

/// Whether `needle` occurs in `hay`.
pub fn contains_chars(hay: &Vec<char>, needle: &Vec<char>) -> (r: bool)
    ensures
        r == is_substr(hay@, needle@),
{
    let n = needle.len();
    let hlen = hay.len();
    if n > hlen {
        return false;
    }
    if n == 0 {
        proof {
            assert(hay@.subrange(0int, 0int + needle@.len()) =~= needle@);
        }
        return true;
    }
    let limit = hlen - n;
    let mut i: usize = 0;
    while i <= limit
        invariant
            n == needle@.len(),
            hlen == hay@.len(),
            1 <= n <= hlen,
            limit == hlen - n,
            i <= limit + 1,
            forall|j: int| 0 <= j < i ==> #[trigger] hay@.subrange(j, j + n) != needle@,
        decreases limit + 1 - i,
    {
        if matches_at(hay, needle, i) {
            return true;
        }
        i = i + 1;
    }
    false
}

} // verus!

verus! {

/// The pieces of `cs` that the bounds in `b` delimit.
pub open spec fn pieces_of(cs: Seq<char>, b: Seq<(usize, usize)>) -> Seq<Seq<char>> {
    b.map_values(|p: (usize, usize)| cs.subrange(p.0 as int, p.1 as int))
}

/// Whether every pair in `b` delimits a piece of a sequence of length `n`.
pub open spec fn bounds_within(b: Seq<(usize, usize)>, n: nat) -> bool {
    forall|i: int| 0 <= i < b.len() ==> (#[trigger] b[i]).0 <= b[i].1 <= n
}

/// The bounds of the pieces of `cs` between occurrences of `sep`.
pub fn split_bounds(cs: &Vec<char>, sep: char) -> (r: Vec<(usize, usize)>)
    ensures
        bounds_within(r@, cs@.len()),
        pieces_of(cs@, r@) == split_char(cs@, sep),
{
    let mut out: Vec<(usize, usize)> = Vec::new();
    let mut start: usize = 0;
    let mut i: usize = 0;
    proof {
        assert(cs@.take(0) =~= Seq::<char>::empty());
        assert(cs@.subrange(0, 0) =~= Seq::<char>::empty());
        assert(pieces_of(cs@, out@).push(cs@.subrange(0, 0)) =~= seq![Seq::<char>::empty()]);
    }
    while i < cs.len()
        invariant
            start <= i <= cs@.len(),
            bounds_within(out@, cs@.len()),
            split_char(cs@.take(i as int), sep) == pieces_of(cs@, out@).push(cs@.subrange(start as int, i as int)),
        decreases cs@.len() - i,
    {
        let ghost cur = cs@.subrange(start as int, i as int);
        let ghost prev = pieces_of(cs@, out@);
        proof {
            assert(cs@.take(i + 1).drop_last() =~= cs@.take(i as int));
            assert(cs@.take(i + 1).last() == cs@[i as int]);
        }
        if cs[i] == sep {
            out.push((start, i));
            proof {
                assert(pieces_of(cs@, out@) =~= prev.push(cur));
                assert(cs@.subrange(i + 1, i + 1) =~= Seq::<char>::empty());
            }
            start = i + 1;
        } else {
            proof {
                assert(cs@.subrange(start as int, i + 1) =~= cur.push(cs@[i as int]));
                assert(prev.push(cur).update(prev.len() as int, cur.push(cs@[i as int])) =~= prev.push(
                    cs@.subrange(start as int, i + 1),
                ));
            }
        }
        i = i + 1;
    }
    let ghost prev = pieces_of(cs@, out@);
    out.push((start, i));
    proof {
        assert(pieces_of(cs@, out@) =~= prev.push(cs@.subrange(start as int, i as int)));
        assert(cs@.take(i as int) =~= cs@);
    }
    out
}

} // verus!

verus! {

/// The number of bytes `c` takes in UTF-8.
pub open spec fn utf8_width(c: char) -> nat {
    if (c as u32) < 0x80 {
        1
    } else if (c as u32) < 0x800 {
        2
    } else if (c as u32) < 0x10000 {
        3
    } else {
        4
    }
}

/// The number of bytes `s` takes in UTF-8.
pub open spec fn utf8_len(s: Seq<char>) -> nat
    decreases s.len(),
{
    if s.len() == 0 {
        0
    } else {
        utf8_len(s.drop_last()) + utf8_width(s.last())
    }
}

/// Whether the first `n` bytes of `s` (all of it when it is shorter) end on a
/// character boundary.
pub open spec fn is_byte_boundary(s: Seq<char>, n: nat) -> bool {
    exists|k: int| 0 <= k <= s.len() && utf8_len(#[trigger] s.take(k)) == if utf8_len(s) <= n {
        utf8_len(s)
    } else {
        n
    }
}

/// The characters that the first `n` bytes of `s` hold, when they end on a
/// character boundary.
pub open spec fn byte_prefix(s: Seq<char>, n: nat) -> Seq<char> {
    s.take(
        choose|k: int| 0 <= k <= s.len() && utf8_len(#[trigger] s.take(k)) == if utf8_len(s) <= n {
            utf8_len(s)
        } else {
            n
        },
    )
}

/// A longer prefix takes more bytes.
proof fn lemma_utf8_len_grows(s: Seq<char>, a: int, b: int)
    requires
        0 <= a < b <= s.len(),
    ensures
        utf8_len(s.take(a)) < utf8_len(s.take(b)),
    decreases b - a,
{
    assert(s.take(b).drop_last() =~= s.take(b - 1));
    if a < b - 1 {
        lemma_utf8_len_grows(s, a, b - 1);
    }
}

/// The bytes of a character.
fn char_width(c: char) -> (r: usize)
    ensures
        r == utf8_width(c),
{
    let u = c as u32;
    if u < 0x80 {
        1
    } else if u < 0x800 {
        2
    } else if u < 0x10000 {
        3
    } else {
        4
    }
}

/// The characters held by the first `n` bytes of `s`, which must end on a
/// character boundary (as slicing a `str` by bytes requires).
pub fn prefix_of_bytes(s: &str, n: usize) -> (r: String)
    requires
        is_byte_boundary(s@, n as nat),
    ensures
        r@ == byte_prefix(s@, n as nat),
{
    let cs = chars_of(s);
    let mut bytes: usize = 0;
    let mut i: usize = 0;
    while i < cs.len()
        invariant_except_break
            i <= cs@.len(),
            bytes == utf8_len(cs@.take(i as int)),
            bytes <= n,
        ensures
            i <= cs@.len(),
            bytes == utf8_len(cs@.take(i as int)),
            bytes <= n,
            i < cs@.len() ==> utf8_len(cs@.take(i + 1)) > n,
        decreases cs@.len() - i,
    {
        let w = char_width(cs[i]);
        proof {
            assert(cs@.take(i + 1).drop_last() =~= cs@.take(i as int));
        }
        if w > n - bytes {
            break;
        }
        bytes = bytes + w;
        i = i + 1;
    }
    proof {
        let target = if utf8_len(s@) <= n as nat {
            utf8_len(s@)
        } else {
            n as nat
        };
        let k = choose|k: int| 0 <= k <= s@.len() && utf8_len(#[trigger] s@.take(k)) == target;
        assert(cs@.take(cs@.len() as int) =~= cs@);
        if k < i {
            lemma_utf8_len_grows(s@, k, i as int);
            if (i as int) < s@.len() {
                lemma_utf8_len_grows(s@, i as int, s@.len() as int);
            }
        } else if (i as int) < k {
            lemma_utf8_len_grows(s@, i as int, k);
            if i + 1 < k {
                lemma_utf8_len_grows(s@, i + 1, k);
            }
        }
        assert(k == i);
    }
    string_of(&cs, 0, i)
}

} // verus!
