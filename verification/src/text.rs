use vstd::prelude::*;
use vstd::utf8::*;
use vstd::string::StringExecFns;

verus! {

/// Number of bytes of the UTF-8 encoding of `s` (what `str::len` reports).
pub open spec fn utf8_len(s: Seq<char>) -> nat {
    encode_utf8(s).len()
}

/// Byte offset `i` starts a character of `s`, or is its end.
pub open spec fn on_boundary(s: Seq<char>, i: int) -> bool {
    is_char_boundary(encode_utf8(s), i)
}

/// Number of characters of `s` that lie before byte offset `i`.
pub open spec fn char_pos(s: Seq<char>, i: int) -> int {
    decode_utf8(encode_utf8(s).subrange(0, i)).len() as int
}

/// The Unicode `White_Space` property, which `char::is_whitespace` tests.
pub open spec fn is_white_space(c: char) -> bool {
    let u = c as u32;
    ||| 0x09 <= u <= 0x0D
    ||| u == 0x20
    ||| u == 0x85
    ||| u == 0xA0
    ||| u == 0x1680
    ||| 0x2000 <= u <= 0x200A
    ||| u == 0x2028
    ||| u == 0x2029
    ||| u == 0x202F
    ||| u == 0x205F
    ||| u == 0x3000
}

/// Every character of `s` is white space: `str::trim` leaves nothing of it.
pub open spec fn is_blank(s: Seq<char>) -> bool {
    forall|i: int| 0 <= i < s.len() ==> is_white_space(#[trigger] s[i])
}

/// Tests the Unicode `White_Space` property, as `char::is_whitespace` does.
pub fn char_is_whitespace(c: char) -> (r: bool)
    ensures
        r == is_white_space(c),
{
    let u = c as u32;
    (0x09 <= u && u <= 0x0D) || u == 0x20 || u == 0x85 || u == 0xA0 || u == 0x1680 || (0x2000
        <= u && u <= 0x200A) || u == 0x2028 || u == 0x2029 || u == 0x202F || u == 0x205F || u
        == 0x3000
}

/// The first character of `char::to_lowercase(c)`.
pub uninterp spec fn lowercase_first(c: char) -> char;

/// The lower-case mapping of a text (`str::to_lowercase`).
pub uninterp spec fn str_lowercase(s: Seq<char>) -> Seq<char>;

/// ASCII letters `A`..`Z` become `a`..`z`; every other character stays.
pub open spec fn ascii_lower(c: char) -> char {
    if 65 <= c as u32 <= 90 {
        ((c as u32) + 32) as char
    } else {
        c
    }
}

/// `char::to_lowercase` followed by `next`: the first character of the lower-case mapping of
/// `c` (the mapping always yields at least one character). For ASCII input that is the ASCII
/// lower case; for other characters the Unicode tables decide, and the result is only named.
#[verifier::external_body]
pub(crate) fn char_lowercase_first(c: char) -> (r: char)
    ensures
        r == lowercase_first(c),
        (c as u32) < 128 ==> r == ascii_lower(c),
{
    c.to_lowercase().next().unwrap_or(c)
}

/// Calls `str::to_lowercase`. Its result depends on the text alone and is named. The text is
/// mapped character by character, each character to at least one, so the result is empty only
/// for empty text, and it starts with the first character of the first character's mapping
/// (the final-sigma rule never applies at the start); ASCII characters map to their ASCII
/// lower case.
#[verifier::external_body]
pub(crate) fn str_to_lowercase(s: &str) -> (r: String)
    ensures
        r@ == str_lowercase(s@),
        (r@.len() == 0) == (s@.len() == 0),
        s@.len() > 0 ==> r@[0] == lowercase_first(s@[0]),
        s@.len() > 0 && (s@[0] as u32) < 128 ==> r@[0] == ascii_lower(s@[0]),
        is_ascii_chars(s@) ==> r@ == s@.map_values(|c: char| ascii_lower(c)),
{
    s.to_lowercase()
}

/// `s.trim().is_empty()`: the text holds nothing but white space.
pub fn trim_is_empty(s: &str) -> (r: bool)
    ensures
        r == is_blank(s@),
{
    let n = s.unicode_len();
    let mut i: usize = 0;
    while i < n
        invariant
            n == s@.len(),
            i <= n,
            forall|j: int| 0 <= j < i ==> is_white_space(#[trigger] s@[j]),
        decreases n - i,
    {
        let c = s.get_char(i);
        if !char_is_whitespace(c) {
            return false;
        }
        i = i + 1;
    }
    true
}

/// `String::len`: the number of bytes of the string's UTF-8 encoding.
#[verifier::external_body]
pub(crate) fn byte_len(s: &String) -> (n: usize)
    ensures
        n == utf8_len(s@),
{
    s.len()
}

/// `String::insert`: puts `c` at byte offset `idx`, which must lie on a character boundary
/// (the std function panics otherwise).
#[verifier::external_body]
pub(crate) fn string_insert(s: &mut String, idx: usize, c: char)
    requires
        on_boundary(old(s)@, idx as int),
    ensures
        final(s)@ == old(s)@.insert(char_pos(old(s)@, idx as int), c),
{
    s.insert(idx, c);
}

/// `String::remove`: takes out the character that starts at byte offset `idx`, which must be
/// below the length and on a character boundary (the std function panics otherwise).
#[verifier::external_body]
pub(crate) fn string_remove(s: &mut String, idx: usize) -> (c: char)
    requires
        idx < utf8_len(old(s)@),
        on_boundary(old(s)@, idx as int),
    ensures
        c == old(s)@[char_pos(old(s)@, idx as int)],
        final(s)@ == old(s)@.remove(char_pos(old(s)@, idx as int)),
{
    s.remove(idx)
}

/// `String::push`: appends one character.
#[verifier::external_body]
pub(crate) fn string_push(s: &mut String, c: char)
    ensures
        final(s)@ == old(s)@.push(c),
{
    s.push(c);
}

/// `a` followed by `b` and `c`.
pub fn concat3(a: &str, b: &str, c: &str) -> (r: String)
    ensures
        r@ == a@ + b@ + c@,
{
    let mut s = a.to_owned();
    s.append(b);
    s.append(c);
    s
}

/// Byte offset `idx` starts a character of `s`, or is its end.
pub fn at_boundary(s: &String, idx: usize) -> (r: bool)
    ensures
        r == on_boundary(s@, idx as int),
{
    s.as_str().is_char_boundary(idx)
}

/// The encoding of two texts one after the other is the two encodings one after the other.
pub proof fn lemma_encode_concat(x: Seq<char>, y: Seq<char>)
    ensures
        encode_utf8(x + y) == encode_utf8(x) + encode_utf8(y),
    decreases x.len(),
{
    if x.len() == 0 {
        assert(x + y =~= y);
        assert(encode_utf8(x) =~= Seq::<u8>::empty());
        assert(encode_utf8(x) + encode_utf8(y) =~= encode_utf8(y));
    } else {
        assert((x + y).drop_first() =~= x.drop_first() + y);
        assert((x + y)[0] == x[0]);
        lemma_encode_concat(x.drop_first(), y);
        assert(encode_utf8(x + y) =~= encode_utf8(x) + encode_utf8(y));
    }
}

/// Where the encoding of `x` ends inside the encoding of `x + y`, a character starts (or the
/// text ends).
pub proof fn lemma_boundary_at_seam(x: Seq<char>, y: Seq<char>)
    ensures
        on_boundary(x + y, utf8_len(x) as int),
    decreases x.len(),
{
    broadcast use encode_utf8_valid_utf8;

    if x.len() > 0 {
        let b = encode_utf8(x + y);
        encode_utf8_first_scalar(x + y);
        lemma_encode_concat(x, y);
        lemma_encode_concat(x.drop_first(), y);
        assert((x + y).drop_first() =~= x.drop_first() + y);
        assert((x + y)[0] == x[0]);
        let l = encode_scalar(x[0] as u32).len() as int;
        assert(pop_first_scalar(b) =~= encode_utf8(x.drop_first() + y));
        assert(utf8_len(x) == l + utf8_len(x.drop_first()));
        lemma_boundary_at_seam(x.drop_first(), y);
    }
}

/// A boundary at byte `p` splits the text: the characters before it encode to exactly `p`
/// bytes.
pub proof fn lemma_boundary_splits(s: Seq<char>, p: int)
    requires
        on_boundary(s, p),
    ensures
        0 <= p <= utf8_len(s),
        0 <= char_pos(s, p) <= s.len(),
        utf8_len(s.subrange(0, char_pos(s, p))) == p,
        s == s.subrange(0, char_pos(s, p)) + s.subrange(char_pos(s, p), s.len() as int),
{
    broadcast use encode_utf8_valid_utf8, encode_utf8_decode_utf8;

    let b = encode_utf8(s);
    reveal_with_fuel(is_char_boundary, 1);
    assert(0 <= p <= b.len());
    valid_utf8_split(b, p);
    decode_utf8_split(b, p);
    let a = decode_utf8(b.subrange(0, p));
    let r = decode_utf8(b.subrange(p, b.len() as int));
    assert(s == a + r);
    decode_utf8_encode_utf8(b.subrange(0, p));
    assert(s.subrange(0, a.len() as int) =~= a);
    assert(s.subrange(a.len() as int, s.len() as int) =~= r);
}

/// Inserting a character at a boundary leaves the boundary where it was, in front of the new
/// character, and the text grows.
pub proof fn lemma_insert_at_boundary(s: Seq<char>, p: int, c: char)
    requires
        on_boundary(s, p),
    ensures
        ({
            let k = char_pos(s, p);
            let t = s.insert(k, c);
            &&& 0 <= p
            &&& char_pos(t, p) == k
            &&& on_boundary(t, p)
            &&& p < utf8_len(t)
            &&& t.remove(k) == s
        }),
{
    broadcast use encode_utf8_decode_utf8;

    lemma_boundary_splits(s, p);
    let k = char_pos(s, p);
    let a = s.subrange(0, k);
    let rest = seq![c] + s.subrange(k, s.len() as int);
    let t = s.insert(k, c);
    assert(t =~= a + rest);
    lemma_encode_concat(a, rest);
    assert(encode_utf8(t).subrange(0, p) =~= encode_utf8(a));
    lemma_boundary_at_seam(a, rest);
    assert(encode_utf8(rest).len() > 0) by {
        assert(encode_utf8(rest) == encode_scalar(rest[0] as u32) + encode_utf8(rest.drop_first()));
    }
    assert(t.remove(k) =~= s);
}

/// A Rust string never holds more than `isize::MAX` bytes (no allocation is larger).
pub open spec fn string_fits(s: Seq<char>) -> bool {
    utf8_len(s) <= isize::MAX
}

/// An ASCII text takes one byte per character: every offset up to its length is a
/// character boundary, and there the character position is the byte offset.
pub proof fn lemma_ascii_offsets(s: Seq<char>, p: int)
    requires
        is_ascii_chars(s),
        0 <= p <= s.len(),
    ensures
        utf8_len(s) == s.len(),
        on_boundary(s, p),
        char_pos(s, p) == p,
{
    broadcast use is_ascii_chars_encode_utf8, encode_utf8_decode_utf8;

    let x = s.subrange(0, p);
    let y = s.subrange(p, s.len() as int);
    assert(s =~= x + y);
    assert(is_ascii_chars(x)) by {
        assert forall|i: int| 0 <= i < x.len() implies '\0' <= #[trigger] x[i] <= '\u{7f}' by {
            assert(x[i] == s[i]);
        }
    }
    lemma_boundary_at_seam(x, y);
    lemma_encode_concat(x, y);
    assert(encode_utf8(s).subrange(0, p) =~= encode_utf8(x));
}

/// Inserting an ASCII character into an ASCII text, or removing one of its characters,
/// leaves it ASCII.
pub proof fn lemma_ascii_edits(s: Seq<char>, k: int, c: char)
    requires
        is_ascii_chars(s),
    ensures
        0 <= k <= s.len() && (c as u32) < 128 ==> is_ascii_chars(s.insert(k, c)),
        0 <= k < s.len() ==> is_ascii_chars(s.remove(k)),
{
    if 0 <= k <= s.len() && (c as u32) < 128 {
        let t = s.insert(k, c);
        assert forall|i: int| 0 <= i < t.len() implies '\0' <= #[trigger] t[i] <= '\u{7f}' by {
            if i < k {
                assert(t[i] == s[i]);
            } else if i > k {
                assert(t[i] == s[i - 1]);
            }
        }
    }
    if 0 <= k < s.len() {
        let t = s.remove(k);
        assert forall|i: int| 0 <= i < t.len() implies '\0' <= #[trigger] t[i] <= '\u{7f}' by {
            if i < k {
                assert(t[i] == s[i]);
            } else {
                assert(t[i] == s[i + 1]);
            }
        }
    }
}

} // verus!
