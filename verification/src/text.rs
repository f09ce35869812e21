//! Small string utilities shared by the stages.
use vstd::prelude::*;

verus! {

/// `String::push`: appends one character.
#[verifier::external_body]
pub fn push_char(s: &mut String, c: char)
    ensures
        final(s)@ == old(s)@.push(c),
{
    s.push(c);
}

/// The Unicode lowercase mapping of a character, as `char::to_lowercase` yields it.
pub uninterp spec fn spec_to_lowercase(c: char) -> Seq<char>;

pub open spec fn spec_ascii_lower(c: char) -> char {
    if 'A' <= c && c <= 'Z' {
        ((c as u32 + 32) as u8) as char
    } else {
        c
    }
}

/// `char::to_lowercase`, collected. The standard library documents that the
/// mapping yields one or more characters, and ASCII letters map to their ASCII
/// lowercase forms; nothing else is stated of the Unicode tables here.
#[verifier::external_body]
pub fn char_to_lowercase(c: char) -> (r: Vec<char>)
    ensures
        r@ == spec_to_lowercase(c),
        r@.len() >= 1,
        (c as u32) < 0x80 ==> r@ == seq![spec_ascii_lower(c)],
{
    c.to_lowercase().collect()
}

/// The full lowercase mapping: the ASCII lowercase for ASCII characters,
/// the Unicode mapping otherwise.
pub open spec fn spec_lowercase_full(c: char) -> Seq<char> {
    if (c as u32) < 0x80 {
        seq![spec_ascii_lower(c)]
    } else {
        spec_to_lowercase(c)
    }
}

/// The first character of the lowercase mapping.
pub open spec fn spec_lowercase_first(c: char) -> char {
    spec_lowercase_full(c)[0]
}

pub fn lowercase_first(c: char) -> (r: char)
    ensures
        r == spec_lowercase_first(c),
{
    let v = char_to_lowercase(c);
    v[0]
}

/// The characters of a string slice.
pub fn str_chars(s: &str) -> (v: Vec<char>)
    ensures
        v@ == s@,
{
    let mut v: Vec<char> = Vec::new();
    for c in it: s.chars()
        invariant
            v@ == it.seq().take(it.index() as int),
    {
        v.push(c);
    }
    v
}

/// A string holding exactly the given characters.
pub fn chars_to_string(v: &Vec<char>) -> (s: String)
    ensures
        s@ == v@,
{
    let mut s = String::new();
    let n = v.len();
    for i in 0..n
        invariant
            n == v@.len(),
            s@ == v@.take(i as int),
    {
        push_char(&mut s, v[i]);
        assert(v@.take(i + 1) =~= v@.take(i as int).push(v@[i as int]));
    }
    assert(v@.take(n as int) =~= v@);
    s
}

/// Appends every character of `t` to `s`.
pub fn push_str(s: &mut String, t: &str)
    ensures
        final(s)@ == old(s)@ + t@,
{
    let v = str_chars(t);
    let n = v.len();
    let ghost s0 = s@;
    for i in 0..n
        invariant
            n == v@.len(),
            v@ == t@,
            s@ == s0 + v@.take(i as int),
    {
        push_char(s, v[i]);
        assert(v@.take(i + 1) =~= v@.take(i as int).push(v@[i as int]));
    }
    assert(v@.take(n as int) =~= v@);
}

/// Appends every character of `t` to `v`.
pub fn extend_chars(v: &mut Vec<char>, t: &Vec<char>)
    ensures
        final(v)@ == old(v)@ + t@,
{
    let n = t.len();
    let ghost v0 = v@;
    for i in 0..n
        invariant
            n == t@.len(),
            v@ == v0 + t@.take(i as int),
    {
        v.push(t[i]);
        assert(t@.take(i + 1) =~= t@.take(i as int).push(t@[i as int]));
    }
    assert(t@.take(n as int) =~= t@);
}

/// Character-wise equality of two string slices.
pub fn str_eq(a: &str, b: &str) -> (r: bool)
    ensures
        r == (a@ == b@),
{
    let va = str_chars(a);
    let vb = str_chars(b);
    chars_eq(&va, &vb)
}

pub fn chars_eq(a: &Vec<char>, b: &Vec<char>) -> (r: bool)
    ensures
        r == (a@ == b@),
{
    if a.len() != b.len() {
        return false;
    }
    let n = a.len();
    for i in 0..n
        invariant
            n == a@.len(),
            n == b@.len(),
            forall|j: int| 0 <= j < i ==> a@[j] == b@[j],
    {
        if a[i] != b[i] {
            return false;
        }
    }
    assert(a@ =~= b@);
    true
}

/// Whether every character is ASCII.
pub open spec fn spec_all_ascii(s: Seq<char>) -> bool {
    forall|i: int| 0 <= i < s.len() ==> (#[trigger] s[i] as u32) < 0x80
}

pub fn chars_all_ascii(v: &Vec<char>) -> (r: bool)
    ensures
        r == spec_all_ascii(v@),
{
    let n = v.len();
    for i in 0..n
        invariant
            n == v@.len(),
            forall|j: int| 0 <= j < i ==> (#[trigger] v@[j] as u32) < 0x80,
    {
        if (v[i] as u32) >= 0x80 {
            return false;
        }
    }
    true
}

/// The number of bytes of the UTF-8 encoding of a character.
pub open spec fn spec_len_utf8(c: char) -> nat {
    let cp = c as u32;
    if cp < 0x80 {
        1
    } else if cp < 0x800 {
        2
    } else if cp < 0x10000 {
        3
    } else {
        4
    }
}

pub fn len_utf8(c: char) -> (r: usize)
    ensures
        r == spec_len_utf8(c),
{
    let cp = c as u32;
    if cp < 0x80 {
        1
    } else if cp < 0x800 {
        2
    } else if cp < 0x10000 {
        3
    } else {
        4
    }
}

pub open spec fn spec_ascii_upper(c: char) -> char {
    if 'a' <= c && c <= 'z' {
        ((c as u32 - 32) as u8) as char
    } else {
        c
    }
}

/// `str::to_ascii_uppercase`: ASCII letters upper-cased, everything else kept.
pub fn ascii_uppercase(s: &str) -> (r: String)
    ensures
        r@ == s@.map_values(|c: char| spec_ascii_upper(c)),
{
    let v = str_chars(s);
    let mut out = String::new();
    let n = v.len();
    for i in 0..n
        invariant
            n == v@.len(),
            v@ == s@,
            out@ == s@.take(i as int).map_values(|c: char| spec_ascii_upper(c)),
    {
        let c = v[i];
        let u = if 'a' <= c && c <= 'z' {
            ((c as u32 - 32) as u8) as char
        } else {
            c
        };
        push_char(&mut out, u);
        assert(s@.take(i + 1).map_values(|c: char| spec_ascii_upper(c)) =~= s@.take(
            i as int,
        ).map_values(|c: char| spec_ascii_upper(c)).push(spec_ascii_upper(c)));
    }
    assert(s@.take(n as int) =~= s@);
    out
}

/// The full Unicode upper-case mapping of a string, as `str::to_uppercase` computes it.
pub uninterp spec fn spec_to_uppercase(s: Seq<char>) -> Seq<char>;

/// `str::to_uppercase`. Its result is named, not described: the Unicode
/// case tables are not restated here.
#[verifier::external_body]
pub fn to_uppercase(s: &str) -> (r: String)
    ensures
        r@ == spec_to_uppercase(s@),
{
    s.to_uppercase()
}

/// An ASCII character survives the round trip through its byte.
pub proof fn lemma_ascii_char_byte(c: char)
    requires
        (c as u32) < 0x80,
    ensures
        ((c as u8) as char) == c,
        (c as u8) as u32 == c as u32,
{
    let cu = c as u32;
    assert(cu < 0x80 ==> (cu as u8) as u32 == cu) by (bit_vector);
}

proof fn lemma_char_le_7f(c: char)
    requires
        (c as u32) < 0x80,
    ensures
        '\0' <= c && c <= '\u{7f}',
{
}

/// `spec_all_ascii` is vstd's notion of an ASCII character sequence.
pub proof fn lemma_all_ascii_is_ascii_chars(s: Seq<char>)
    ensures
        spec_all_ascii(s) == vstd::utf8::is_ascii_chars(s),
{
    if spec_all_ascii(s) {
        assert forall|i: int| 0 <= i < s.len() implies '\0' <= #[trigger] s[i] && s[i] <= '\u{7f}' by {
            let c = s[i];
            assert((c as u32) < 0x80);
            lemma_char_le_7f(c);
        }
    }
    if vstd::utf8::is_ascii_chars(s) {
        assert forall|i: int| 0 <= i < s.len() implies (#[trigger] s[i] as u32) < 0x80 by {
            assert('\0' <= s[i] <= '\u{7f}');
        }
    }
}


/// The sequence holds a character with code point `cp`.
pub open spec fn spec_has_code(s: Seq<char>, cp: u32) -> bool {
    exists|i: int| 0 <= i < s.len() && (#[trigger] s[i] as u32) == cp
}

/// An ASCII byte occurs in a UTF-8 encoding only as the character itself.
proof fn lemma_ascii_byte_in_scalar(c: char, b: u8)
    requires
        b < 0x80,
    ensures
        vstd::utf8::encode_scalar(c as u32).contains(b) == ((c as u32) == b as u32),
{
    let v = c as u32;
    let e = vstd::utf8::encode_scalar(v);
    if vstd::utf8::has_width_1_encoding(v) {
        assert(v <= 0x7F ==> (v & 0x7F) as u8 as u32 == v) by (bit_vector);
        assert(e =~= seq![(v & 0x7F) as u8]);
        if e.contains(b) {
            let k = choose|k: int| 0 <= k < e.len() && e[k] == b;
            assert(k == 0);
        }
        if v == b as u32 {
            assert(e[0] == b);
        }
    } else {
        assert(vstd::utf8::last_continuation_byte(v) >= 0x80) by (bit_vector);
        assert(vstd::utf8::second_last_continuation_byte(v) >= 0x80) by (bit_vector);
        assert(vstd::utf8::third_last_continuation_byte(v) >= 0x80) by (bit_vector);
        assert(vstd::utf8::leading_byte_width_2(v) >= 0x80) by (bit_vector);
        assert(vstd::utf8::leading_byte_width_3(v) >= 0x80) by (bit_vector);
        assert(vstd::utf8::leading_byte_width_4(v) >= 0x80) by (bit_vector);
        assert forall|k: int| 0 <= k < e.len() implies e[k] >= 0x80 by {
        }
        if e.contains(b) {
            let k = choose|k: int| 0 <= k < e.len() && e[k] == b;
            assert(e[k] >= 0x80);
        }
    }
}

/// An ASCII byte occurs in the UTF-8 encoding of a text exactly when the
/// text holds that character.
pub proof fn lemma_ascii_byte_in_utf8(s: Seq<char>, b: u8)
    requires
        b < 0x80,
    ensures
        vstd::utf8::encode_utf8(s).contains(b) == spec_has_code(s, b as u32),
    decreases s.len(),
{
    if s.len() == 0 {
        assert(vstd::utf8::encode_utf8(s) =~= Seq::<u8>::empty());
    } else {
        let head = vstd::utf8::encode_scalar(s[0] as u32);
        let tail = vstd::utf8::encode_utf8(s.drop_first());
        assert(vstd::utf8::encode_utf8(s) == head + tail);
        lemma_ascii_byte_in_scalar(s[0], b);
        lemma_ascii_byte_in_utf8(s.drop_first(), b);
        if (head + tail).contains(b) {
            let k = choose|k: int| 0 <= k < (head + tail).len() && (head + tail)[k] == b;
            if k < head.len() {
                assert(head[k] == b);
                assert(head.contains(b));
            } else {
                assert(tail[k - head.len()] == b);
                assert(tail.contains(b));
                let i = choose|i: int|
                    0 <= i < s.drop_first().len() && (#[trigger] s.drop_first()[i] as u32) == b as u32;
                assert(s[i + 1] == s.drop_first()[i]);
            }
        }
        if spec_has_code(s, b as u32) {
            let i = choose|i: int| 0 <= i < s.len() && (#[trigger] s[i] as u32) == b as u32;
            if i == 0 {
                let k = choose|k: int| 0 <= k < head.len() && head[k] == b;
                assert((head + tail)[k] == b);
            } else {
                assert(s.drop_first()[i - 1] == s[i]);
                assert(spec_has_code(s.drop_first(), b as u32));
                let k = choose|k: int| 0 <= k < tail.len() && tail[k] == b;
                assert((head + tail)[k + head.len()] == b);
            }
        }
    }
}

/// The text without its leading `White_Space` characters.
pub open spec fn spec_trim_start(s: Seq<char>) -> Seq<char>
    decreases s.len(),
{
    if s.len() > 0 && crate::unicode::spec_is_whitespace(s[0]) {
        spec_trim_start(s.drop_first())
    } else {
        s
    }
}

/// The text without its trailing `White_Space` characters.
pub open spec fn spec_trim_end(s: Seq<char>) -> Seq<char>
    decreases s.len(),
{
    if s.len() > 0 && crate::unicode::spec_is_whitespace(s.last()) {
        spec_trim_end(s.drop_last())
    } else {
        s
    }
}

/// `str::trim`: both ends stripped of `White_Space` characters.
pub open spec fn spec_trim(s: Seq<char>) -> Seq<char> {
    spec_trim_end(spec_trim_start(s))
}

/// The characters of `v` with the leading and trailing `White_Space`
/// characters removed, as `str::trim` removes them.
pub fn trim_chars(v: &Vec<char>) -> (r: Vec<char>)
    ensures
        r@ == spec_trim(v@),
{
    let n = v.len();
    let mut a: usize = 0;
    assert(v@.subrange(0, n as int) =~= v@);
    while a < n && crate::unicode::is_whitespace(v[a])
        invariant
            a <= n,
            n == v@.len(),
            spec_trim_start(v@) == spec_trim_start(v@.subrange(a as int, n as int)),
        decreases n - a,
    {
        assert(v@.subrange(a as int, n as int).drop_first() =~= v@.subrange(a + 1, n as int));
        a = a + 1;
    }
    assert(spec_trim_start(v@.subrange(a as int, n as int)) == v@.subrange(a as int, n as int));
    let mut b: usize = n;
    while b > a && crate::unicode::is_whitespace(v[b - 1])
        invariant
            a <= b <= n,
            n == v@.len(),
            spec_trim(v@) == spec_trim_end(v@.subrange(a as int, b as int)),
        decreases b,
    {
        assert(v@.subrange(a as int, b as int).drop_last() =~= v@.subrange(a as int, b - 1));
        b = b - 1;
    }
    let mut r: Vec<char> = Vec::new();
    let mut k = a;
    while k < b
        invariant
            a <= k <= b,
            b <= n,
            n == v@.len(),
            r@ == v@.subrange(a as int, k as int),
        decreases b - k,
    {
        r.push(v[k]);
        assert(v@.subrange(a as int, k + 1) =~= v@.subrange(a as int, k as int).push(v@[k as int]));
        k = k + 1;
    }
    r
}

/// The characters of `s` that `drop` does not reject, in order.
pub open spec fn spec_keep_chars(s: Seq<char>, drop: spec_fn(char) -> bool) -> Seq<char>
    decreases s.len(),
{
    if s.len() == 0 {
        Seq::empty()
    } else {
        (if drop(s[0]) {
            Seq::empty()
        } else {
            seq![s[0]]
        }) + spec_keep_chars(s.drop_first(), drop)
    }
}

/// Filtering never lengthens a text, and shortens it when it drops a character.
pub proof fn lemma_keep_chars_len(s: Seq<char>, drop: spec_fn(char) -> bool)
    ensures
        spec_keep_chars(s, drop).len() <= s.len(),
        (exists|i: int| 0 <= i < s.len() && drop(#[trigger] s[i])) ==> spec_keep_chars(s, drop).len()
            < s.len(),
    decreases s.len(),
{
    if s.len() > 0 {
        let t = s.drop_first();
        lemma_keep_chars_len(t, drop);
        if !drop(s[0]) && exists|i: int| 0 <= i < s.len() && drop(#[trigger] s[i]) {
            let i = choose|i: int| 0 <= i < s.len() && drop(#[trigger] s[i]);
            assert(t[i - 1] == s[i]);
        }
    }
}

/// A filter changes a text exactly when the text holds a rejected character.
pub proof fn lemma_keep_chars_exact(s: Seq<char>, drop: spec_fn(char) -> bool)
    ensures
        (exists|i: int| 0 <= i < s.len() && drop(#[trigger] s[i])) == (spec_keep_chars(s, drop)
            != s),
{
    lemma_keep_chars_len(s, drop);
    if !exists|i: int| 0 <= i < s.len() && drop(#[trigger] s[i]) {
        lemma_keep_chars_identity(s, drop);
    }
}

/// Nothing is dropped from a text that holds no rejected character.
pub proof fn lemma_keep_chars_identity(s: Seq<char>, drop: spec_fn(char) -> bool)
    requires
        forall|i: int| 0 <= i < s.len() ==> !drop(#[trigger] s[i]),
    ensures
        spec_keep_chars(s, drop) == s,
    decreases s.len(),
{
    if s.len() > 0 {
        assert(!drop(s[0]));
        assert forall|i: int| 0 <= i < s.drop_first().len() implies !drop(
            #[trigger] s.drop_first()[i],
        ) by {
            assert(s.drop_first()[i] == s[i + 1]);
        }
        lemma_keep_chars_identity(s.drop_first(), drop);
        assert(seq![s[0]] + s.drop_first() =~= s);
    }
}

/// Keeping what is not rejected twice keeps the same characters.
pub proof fn lemma_keep_chars_idempotent(s: Seq<char>, drop: spec_fn(char) -> bool)
    ensures
        spec_keep_chars(spec_keep_chars(s, drop), drop) == spec_keep_chars(s, drop),
        forall|i: int|
            0 <= i < spec_keep_chars(s, drop).len() ==> !drop(#[trigger] spec_keep_chars(s, drop)[i]),
    decreases s.len(),
{
    if s.len() > 0 {
        lemma_keep_chars_idempotent(s.drop_first(), drop);
        let k = spec_keep_chars(s, drop);
        let kt = spec_keep_chars(s.drop_first(), drop);
        assert forall|i: int| 0 <= i < k.len() implies !drop(#[trigger] k[i]) by {
            if drop(s[0]) {
                assert(k =~= kt);
            } else {
                assert(k =~= seq![s[0]] + kt);
                if i > 0 {
                    assert(k[i] == kt[i - 1]);
                }
            }
        }
        lemma_keep_chars_identity(k, drop);
    }
}

} // verus!
