//! Character-level operations on strings, stated over `Seq<char>`.
use vstd::prelude::*;
use vstd::utf8::{decode_utf8, encode_utf8, valid_utf8};

verus! {

/// `String::push` appends the given character to the end of the string.
pub assume_specification[ String::push ](s: &mut String, c: char)
    ensures
        final(s)@ == old(s)@.push(c),
;

/// The number of bytes that a text takes in UTF-8.
pub open spec fn byte_len(s: Seq<char>) -> nat {
    encode_utf8(s).len()
}

/// The number of bytes that a string takes.
pub fn byte_count(s: &str) -> (n: usize)
    ensures
        n == byte_len(s@),
{
    s.as_bytes().len()
}

/// Lexicographic order by code point, which is also the order of the UTF-8 bytes.
pub open spec fn text_less(a: Seq<char>, b: Seq<char>) -> bool
    decreases a.len(),
{
    if b.len() == 0 {
        false
    } else if a.len() == 0 {
        true
    } else if a[0] != b[0] {
        a[0] < b[0]
    } else {
        text_less(a.drop_first(), b.drop_first())
    }
}

/// No text is less than itself.
pub proof fn lemma_text_less_irreflexive(a: Seq<char>)
    ensures
        !text_less(a, a),
    decreases a.len(),
{
    if a.len() > 0 {
        lemma_text_less_irreflexive(a.drop_first());
    }
}

/// The order of texts is transitive.
pub proof fn lemma_text_less_transitive(a: Seq<char>, b: Seq<char>, c: Seq<char>)
    requires
        text_less(a, b),
        text_less(b, c),
    ensures
        text_less(a, c),
    decreases a.len(),
{
    if a.len() > 0 && a[0] == b[0] && b[0] == c[0] {
        lemma_text_less_transitive(a.drop_first(), b.drop_first(), c.drop_first());
    }
}

/// Of two different texts one is less than the other.
pub proof fn lemma_text_less_total(a: Seq<char>, b: Seq<char>)
    ensures
        text_less(a, b) || text_less(b, a) || a == b,
    decreases a.len(),
{
    if a.len() > 0 && b.len() > 0 && a[0] == b[0] {
        lemma_text_less_total(a.drop_first(), b.drop_first());
        if a.drop_first() == b.drop_first() {
            assert(a =~= seq![a[0]] + a.drop_first());
            assert(b =~= seq![b[0]] + b.drop_first());
        }
    } else if a.len() == 0 && b.len() == 0 {
        assert(a =~= b);
    }
}

/// The characters of a string, in order.
pub fn chars_of(s: &str) -> (v: Vec<char>)
    ensures
        v@ == s@,
{
    let mut v: Vec<char> = Vec::new();
    for c in it: s.chars()
        invariant
            v@ == s@.take(it.index() as int),
            it.seq() == s@,
    {
        v.push(c);
    }
    v
}

/// The string made of the given characters.
pub fn string_of(chars: &[char]) -> (s: String)
    ensures
        s@ == chars@,
{
    let mut s = String::new();
    let mut i: usize = 0;
    while i < chars.len()
        invariant
            i <= chars.len(),
            s@ == chars@.take(i as int),
        decreases chars.len() - i,
    {
        s.push(chars[i]);
        i = i + 1;
    }
    s
}

/// Whether two strings hold the same characters.
pub fn text_eq(a: &str, b: &str) -> (r: bool)
    ensures
        r == (a@ == b@),
{
    let x = a.as_bytes();
    let y = b.as_bytes();
    proof {
        vstd::utf8::encode_utf8_decode_utf8(a@);
        vstd::utf8::encode_utf8_decode_utf8(b@);
    }
    if x.len() != y.len() {
        return false;
    }
    let mut i: usize = 0;
    while i < x.len()
        invariant
            i <= x.len(),
            x.len() == y.len(),
            x@ == encode_utf8(a@),
            y@ == encode_utf8(b@),
            x@.take(i as int) == y@.take(i as int),
        decreases x.len() - i,
    {
        if x[i] != y[i] {
            return false;
        }
        assert(x@.take(i + 1) == x@.take(i as int).push(x@[i as int]));
        assert(y@.take(i + 1) == y@.take(i as int).push(y@[i as int]));
        i = i + 1;
    }
    assert(x@.take(i as int) == x@);
    assert(y@.take(i as int) == y@);
    true
}

/// Whether the first character sequence comes before the second one.
pub fn chars_less(a: &[char], b: &[char]) -> (r: bool)
    ensures
        r == text_less(a@, b@),
{
    let mut i: usize = 0;
    assert(a@.skip(0) =~= a@);
    assert(b@.skip(0) =~= b@);
    while i < a.len() && i < b.len()
        invariant
            i <= a.len(),
            i <= b.len(),
            text_less(a@, b@) == text_less(a@.skip(i as int), b@.skip(i as int)),
        decreases a.len() - i,
    {
        assert(a@.skip(i as int)[0] == a@[i as int]);
        assert(b@.skip(i as int)[0] == b@[i as int]);
        if a[i] != b[i] {
            return a[i] < b[i];
        }
        assert(a@.skip(i as int).drop_first() =~= a@.skip(i + 1));
        assert(b@.skip(i as int).drop_first() =~= b@.skip(i + 1));
        i = i + 1;
    }
    i < b.len()
}

/// Whether the first string comes before the second one.
pub fn text_lt(a: &str, b: &str) -> (r: bool)
    ensures
        r == text_less(a@, b@),
{
    let x = chars_of(a);
    let y = chars_of(b);
    chars_less(&x, &y)
}

/// Whether `s` begins with `prefix`.
pub fn has_prefix(s: &str, prefix: &str) -> (r: bool)
    ensures
        r == prefix@.is_prefix_of(s@),
{
    let x = chars_of(s);
    let y = chars_of(prefix);
    if y.len() > x.len() {
        return false;
    }
    let mut i: usize = 0;
    while i < y.len()
        invariant
            i <= y.len() <= x.len(),
            x@ == s@,
            y@ == prefix@,
            forall|j: int| 0 <= j < i ==> x@[j] == y@[j],
        decreases y.len() - i,
    {
        if x[i] != y[i] {
            assert(s@.subrange(0, y.len() as int)[i as int] == x@[i as int]);
            return false;
        }
        i = i + 1;
    }
    assert(prefix@ =~= s@.subrange(0, y.len() as int));
    true
}

/// Whether `s` ends with `suffix`.
pub fn has_suffix(s: &str, suffix: &str) -> (r: bool)
    ensures
        r == suffix@.is_suffix_of(s@),
{
    let x = chars_of(s);
    let y = chars_of(suffix);
    if y.len() > x.len() {
        return false;
    }
    let base: usize = x.len() - y.len();
    let mut i: usize = 0;
    while i < y.len()
        invariant
            i <= y.len() <= x.len(),
            base == x.len() - y.len(),
            x@ == s@,
            y@ == suffix@,
            forall|j: int| 0 <= j < i ==> x@[base + j] == y@[j],
        decreases y.len() - i,
    {
        if x[base + i] != y[i] {
            assert(s@.subrange(base as int, x.len() as int)[i as int] == x@[base + i]);
            return false;
        }
        i = i + 1;
    }
    assert(suffix@ =~= s@.subrange(base as int, x.len() as int));
    true
}

/// Whether a character occurs in the string.
pub fn contains_char(s: &str, c: char) -> (r: bool)
    ensures
        r == s@.contains(c),
{
    let x = chars_of(s);
    let mut i: usize = 0;
    while i < x.len()
        invariant
            i <= x.len(),
            x@ == s@,
            forall|j: int| 0 <= j < i ==> x@[j] != c,
        decreases x.len() - i,
    {
        if x[i] == c {
            assert(s@[i as int] == c);
            return true;
        }
        i = i + 1;
    }
    false
}

/// The text that follows `prefix`, where `s` begins with it.
pub fn strip_prefix(s: &str, prefix: &str) -> (r: Option<String>)
    ensures
        match r {
            Some(rest) => prefix@.is_prefix_of(s@) && rest@ == s@.skip(prefix@.len() as int),
            None => !prefix@.is_prefix_of(s@),
        },
{
    if !has_prefix(s, prefix) {
        return None;
    }
    let x = chars_of(s);
    let n: usize = chars_of(prefix).len();
    let mut rest = String::new();
    let mut i: usize = n;
    while i < x.len()
        invariant
            n <= i <= x.len(),
            x@ == s@,
            rest@ == s@.subrange(n as int, i as int),
        decreases x.len() - i,
    {
        rest.push(x[i]);
        assert(s@.subrange(n as int, i + 1) =~= s@.subrange(n as int, i as int).push(s@[i as int]));
        i = i + 1;
    }
    assert(s@.subrange(n as int, i as int) =~= s@.skip(n as int));
    Some(rest)
}

/// The string without a character at its end, where it is there.
pub fn strip_suffix_char(s: &str, c: char) -> (r: String)
    ensures
        r@ == (if s@.len() > 0 && s@.last() == c {
            s@.drop_last()
        } else {
            s@
        }),
{
    let x = chars_of(s);
    let size: usize = x.len();
    let end: usize = if size > 0 && x[size - 1] == c {
        size - 1
    } else {
        size
    };
    let mut r = String::new();
    let mut i: usize = 0;
    while i < end
        invariant
            i <= end <= x.len(),
            x@ == s@,
            r@ == s@.take(i as int),
        decreases end - i,
    {
        r.push(x[i]);
        assert(s@.take(i + 1) =~= s@.take(i as int).push(s@[i as int]));
        i = i + 1;
    }
    assert(s@.take(end as int) =~= (if s@.len() > 0 && s@.last() == c {
        s@.drop_last()
    } else {
        s@
    }));
    r
}

/// An ASCII lowercase letter.
pub open spec fn is_lower(c: char) -> bool {
    'a' <= c <= 'z'
}

/// An ASCII uppercase letter.
pub open spec fn is_upper(c: char) -> bool {
    'A' <= c <= 'Z'
}

/// An ASCII decimal digit.
pub open spec fn is_digit(c: char) -> bool {
    '0' <= c <= '9'
}

/// An ASCII letter or digit.
pub open spec fn is_alnum(c: char) -> bool {
    is_lower(c) || is_upper(c) || is_digit(c)
}

/// A character with the Unicode property White_Space.
pub open spec fn is_space(c: char) -> bool {
    ||| '\u{9}' <= c <= '\u{d}'
    ||| c == '\u{20}'
    ||| c == '\u{85}'
    ||| c == '\u{a0}'
    ||| c == '\u{1680}'
    ||| '\u{2000}' <= c <= '\u{200a}'
    ||| c == '\u{2028}'
    ||| c == '\u{2029}'
    ||| c == '\u{202f}'
    ||| c == '\u{205f}'
    ||| c == '\u{3000}'
}

/// A character of the Unicode category of control characters.
pub open spec fn is_control(c: char) -> bool {
    c <= '\u{1f}' || '\u{7f}' <= c <= '\u{9f}'
}

/// Whether `c` is a control character.
pub fn char_is_control(c: char) -> (r: bool)
    ensures
        r == is_control(c),
{
    c <= '\u{1f}' || '\u{7f}' <= c && c <= '\u{9f}'
}

/// Whether `c` is an ASCII lowercase letter.
pub fn char_is_lower(c: char) -> (r: bool)
    ensures
        r == is_lower(c),
{
    'a' <= c && c <= 'z'
}

/// Whether `c` is an ASCII uppercase letter.
pub fn char_is_upper(c: char) -> (r: bool)
    ensures
        r == is_upper(c),
{
    'A' <= c && c <= 'Z'
}

/// Whether `c` is an ASCII decimal digit.
pub fn char_is_digit(c: char) -> (r: bool)
    ensures
        r == is_digit(c),
{
    '0' <= c && c <= '9'
}

/// Whether `c` is an ASCII letter or digit.
pub fn char_is_alnum(c: char) -> (r: bool)
    ensures
        r == is_alnum(c),
{
    char_is_lower(c) || char_is_upper(c) || char_is_digit(c)
}

/// Whether `c` is white space.
pub fn char_is_space(c: char) -> (r: bool)
    ensures
        r == is_space(c),
{
    ('\u{9}' <= c && c <= '\u{d}') || c == '\u{20}' || c == '\u{85}' || c == '\u{a0}' || c
        == '\u{1680}' || ('\u{2000}' <= c && c <= '\u{200a}') || c == '\u{2028}' || c == '\u{2029}'
        || c == '\u{202f}' || c == '\u{205f}' || c == '\u{3000}'
}

/// The characters that a kind of name is made of.
#[derive(Clone, Copy, PartialEq, Eq, Structural)]
pub enum CharClass {
    /// A shared library.
    Library,
    /// A locale.
    Locale,
    /// A time zone.
    Timezone,
    /// One label of a host name.
    HostLabel,
    /// A systemd unit.
    Unit,
    /// A preflight check.
    CheckId,
    /// An environment variable after its first character.
    Variable,
    /// A version or a build identifier.
    Identifier,
    /// A hexadecimal number.
    Hex,
}

/// Whether a character belongs to a class.
pub open spec fn admits(class: CharClass, c: char) -> bool {
    match class {
        CharClass::Library => is_alnum(c) || c == '.' || c == '_' || c == '+' || c == '-',
        CharClass::Locale => is_alnum(c) || c == '.' || c == '_' || c == '-' || c == '@',
        CharClass::Timezone => is_alnum(c) || c == '/' || c == '_' || c == '-' || c == '+',
        CharClass::HostLabel => is_alnum(c) || c == '-',
        CharClass::Unit => is_alnum(c) || c == '-' || c == '_' || c == '.' || c == '@',
        CharClass::CheckId => is_lower(c) || is_digit(c) || c == '-' || c == '_' || c == '.',
        CharClass::Variable => is_upper(c) || is_digit(c) || c == '_',
        CharClass::Identifier => is_alnum(c) || c == '.' || c == '-' || c == '_',
        CharClass::Hex => is_digit(c) || 'a' <= c <= 'f' || 'A' <= c <= 'F',
    }
}

/// A text all of whose characters belong to a class.
pub open spec fn all_admitted(class: CharClass, s: Seq<char>) -> bool {
    forall|i: int| 0 <= i < s.len() ==> admits(class, #[trigger] s[i])
}

/// Whether a character belongs to a class.
pub fn char_admitted(class: CharClass, c: char) -> (r: bool)
    ensures
        r == admits(class, c),
{
    match class {
        CharClass::Library => char_is_alnum(c) || c == '.' || c == '_' || c == '+' || c == '-',
        CharClass::Locale => char_is_alnum(c) || c == '.' || c == '_' || c == '-' || c == '@',
        CharClass::Timezone => char_is_alnum(c) || c == '/' || c == '_' || c == '-' || c == '+',
        CharClass::HostLabel => char_is_alnum(c) || c == '-',
        CharClass::Unit => char_is_alnum(c) || c == '-' || c == '_' || c == '.' || c == '@',
        CharClass::CheckId => char_is_lower(c) || char_is_digit(c) || c == '-' || c == '_' || c
            == '.',
        CharClass::Variable => char_is_upper(c) || char_is_digit(c) || c == '_',
        CharClass::Identifier => char_is_alnum(c) || c == '.' || c == '-' || c == '_',
        CharClass::Hex => char_is_digit(c) || ('a' <= c && c <= 'f') || ('A' <= c && c <= 'F'),
    }
}

/// Whether all characters of a string belong to a class.
pub fn text_admitted(class: CharClass, s: &str) -> (r: bool)
    ensures
        r == all_admitted(class, s@),
{
    let x = chars_of(s);
    let mut i: usize = 0;
    while i < x.len()
        invariant
            i <= x.len(),
            x@ == s@,
            forall|j: int| 0 <= j < i ==> admits(class, #[trigger] s@[j]),
        decreases x.len() - i,
    {
        if !char_admitted(class, x[i]) {
            assert(!admits(class, s@[i as int]));
            return false;
        }
        i = i + 1;
    }
    true
}

/// Whether a character of the string is the given one, at its start.
pub fn starts_with_char(s: &str, c: char) -> (r: bool)
    ensures
        r == (s@.len() > 0 && s@[0] == c),
{
    let x = chars_of(s);
    x.len() > 0 && x[0] == c
}

/// Whether a character of the string is the given one, at its end.
pub fn ends_with_char(s: &str, c: char) -> (r: bool)
    ensures
        r == (s@.len() > 0 && s@.last() == c),
{
    let x = chars_of(s);
    x.len() > 0 && x[x.len() - 1] == c
}

/// A text that holds nothing but white space.
pub open spec fn is_blank(s: Seq<char>) -> bool {
    forall|i: int| 0 <= i < s.len() ==> is_space(s[i])
}

/// Whether the string is empty once trimmed.
pub fn text_is_blank(s: &str) -> (r: bool)
    ensures
        r == is_blank(s@),
{
    let x = chars_of(s);
    let mut i: usize = 0;
    while i < x.len()
        invariant
            i <= x.len(),
            x@ == s@,
            forall|j: int| 0 <= j < i ==> is_space(s@[j]),
        decreases x.len() - i,
    {
        if !char_is_space(x[i]) {
            assert(!is_space(s@[i as int]));
            return false;
        }
        i = i + 1;
    }
    true
}

/// Which characters are trimmed from the ends of a text.
#[derive(Clone, Copy, PartialEq, Eq, Structural)]
pub enum Trim {
    /// White space.
    Space,
    /// White space and the NUL character.
    SpaceAndNul,
    /// The double quotation mark.
    Quote,
    /// The double and the single quotation mark.
    Quotes,
    /// The line feed.
    LineFeed,
}

/// Whether a character is trimmed.
pub open spec fn trims(t: Trim, c: char) -> bool {
    match t {
        Trim::Space => is_space(c),
        Trim::SpaceAndNul => is_space(c) || c == '\0',
        Trim::Quote => c == '"',
        Trim::Quotes => c == '"' || c == '\'',
        Trim::LineFeed => c == '\n',
    }
}

/// A text without the trimmed characters at its end.
pub open spec fn trim_end(s: Seq<char>, t: Trim) -> Seq<char>
    decreases s.len(),
{
    if s.len() > 0 && trims(t, s.last()) {
        trim_end(s.drop_last(), t)
    } else {
        s
    }
}

/// A text without the trimmed characters at its start.
pub open spec fn trim_start(s: Seq<char>, t: Trim) -> Seq<char>
    decreases s.len(),
{
    if s.len() > 0 && trims(t, s[0]) {
        trim_start(s.drop_first(), t)
    } else {
        s
    }
}

/// A text without the trimmed characters at its two ends.
pub open spec fn trim(s: Seq<char>, t: Trim) -> Seq<char> {
    trim_end(trim_start(s, t), t)
}

/// Whether a character is trimmed.
pub fn char_trims(t: Trim, c: char) -> (r: bool)
    ensures
        r == trims(t, c),
{
    match t {
        Trim::Space => char_is_space(c),
        Trim::SpaceAndNul => char_is_space(c) || c == '\0',
        Trim::Quote => c == '"',
        Trim::Quotes => c == '"' || c == '\'',
        Trim::LineFeed => c == '\n',
    }
}

/// The string without the trimmed characters at its two ends.
pub fn trim_text(s: &str, t: Trim) -> (r: String)
    ensures
        r@ == trim(s@, t),
{
    let x = chars_of(s);
    let mut from: usize = 0;
    assert(s@.skip(0) =~= s@);
    while from < x.len() && char_trims(t, x[from])
        invariant
            from <= x.len(),
            x@ == s@,
            trim_start(s@.skip(from as int), t) == trim_start(s@, t),
        decreases x.len() - from,
    {
        assert(s@.skip(from as int)[0] == s@[from as int]);
        assert(s@.skip(from as int).drop_first() =~= s@.skip(from + 1));
        from = from + 1;
    }
    let ghost rest = s@.skip(from as int);
    assert(trim_start(s@, t) == rest) by {
        if from < x.len() {
            assert(rest[0] == s@[from as int]);
        }
    }
    let mut to: usize = x.len();
    assert(s@.subrange(from as int, to as int) =~= rest);
    while to > from && char_trims(t, x[to - 1])
        invariant
            from <= to <= x.len(),
            x@ == s@,
            trim_end(s@.subrange(from as int, to as int), t) == trim_end(rest, t),
        decreases to,
    {
        let ghost cut = s@.subrange(from as int, to as int);
        assert(cut.last() == s@[to - 1]);
        assert(cut.drop_last() =~= s@.subrange(from as int, to - 1));
        to = to - 1;
    }
    let ghost cut = s@.subrange(from as int, to as int);
    assert(trim_end(rest, t) == cut) by {
        if to > from {
            assert(cut.last() == s@[to - 1]);
        }
    }
    let mut r = String::new();
    let mut i: usize = from;
    while i < to
        invariant
            from <= i <= to <= x.len(),
            x@ == s@,
            r@ == s@.subrange(from as int, i as int),
        decreases to - i,
    {
        r.push(x[i]);
        assert(s@.subrange(from as int, i + 1) =~= s@.subrange(from as int, i as int).push(
            s@[i as int],
        ));
        i = i + 1;
    }
    r
}

/// The string without the trimmed characters at its end.
pub fn trim_end_text(s: &str, t: Trim) -> (r: String)
    ensures
        r@ == trim_end(s@, t),
{
    let x = chars_of(s);
    let mut to: usize = x.len();
    assert(s@.take(to as int) =~= s@);
    while to > 0 && char_trims(t, x[to - 1])
        invariant
            to <= x.len(),
            x@ == s@,
            trim_end(s@.take(to as int), t) == trim_end(s@, t),
        decreases to,
    {
        assert(s@.take(to as int).last() == s@[to - 1]);
        assert(s@.take(to as int).drop_last() =~= s@.take(to - 1));
        to = to - 1;
    }
    assert(trim_end(s@, t) == s@.take(to as int)) by {
        if to > 0 {
            assert(s@.take(to as int).last() == s@[to - 1]);
        }
    }
    let mut r = String::new();
    let mut i: usize = 0;
    while i < to
        invariant
            i <= to <= x.len(),
            x@ == s@,
            r@ == s@.take(i as int),
        decreases to - i,
    {
        r.push(x[i]);
        assert(s@.take(i + 1) =~= s@.take(i as int).push(s@[i as int]));
        i = i + 1;
    }
    r
}

/// The part of a text before the first occurrence of a character and the
/// part after it.
pub open spec fn cut_at(s: Seq<char>, c: char) -> Option<(Seq<char>, Seq<char>)>
    decreases s.len(),
{
    if s.len() == 0 {
        None
    } else if s[0] == c {
        Some((Seq::empty(), s.drop_first()))
    } else {
        match cut_at(s.drop_first(), c) {
            Some((before, after)) => Some((seq![s[0]] + before, after)),
            None => None,
        }
    }
}

/// Splits a string at the first occurrence of a character.
pub fn split_once(s: &str, c: char) -> (r: Option<(String, String)>)
    ensures
        match r {
            Some((before, after)) => cut_at(s@, c) == Some((before@, after@)),
            None => cut_at(s@, c) is None,
        },
{
    let x = chars_of(s);
    let mut before = String::new();
    let mut i: usize = 0;
    assert(s@.skip(0) =~= s@);
    while i < x.len() && x[i] != c
        invariant
            i <= x.len(),
            x@ == s@,
            before@ == s@.take(i as int),
            cut_at(s@, c) == (match cut_at(s@.skip(i as int), c) {
                Some((b, a)) => Some((s@.take(i as int) + b, a)),
                None => None::<(Seq<char>, Seq<char>)>,
            }),
        decreases x.len() - i,
    {
        let ghost rest = s@.skip(i as int);
        assert(rest[0] == s@[i as int]);
        assert(rest.drop_first() =~= s@.skip(i + 1));
        before.push(x[i]);
        proof {
            if let Some((b, a)) = cut_at(s@.skip(i + 1), c) {
                assert(s@.take(i as int) + (seq![rest[0]] + b) =~= s@.take(i + 1) + b);
            }
        }
        i = i + 1;
    }
    let ghost rest = s@.skip(i as int);
    if i == x.len() {
        return None;
    }
    assert(rest[0] == c);
    assert(rest.drop_first() =~= s@.skip(i + 1));
    assert(s@.take(i as int) + Seq::<char>::empty() =~= s@.take(i as int));
    let mut after = String::new();
    let mut j: usize = i + 1;
    while j < x.len()
        invariant
            i < j <= x.len(),
            x@ == s@,
            after@ == s@.subrange(i + 1, j as int),
        decreases x.len() - j,
    {
        after.push(x[j]);
        assert(s@.subrange(i + 1, j + 1) =~= s@.subrange(i + 1, j as int).push(s@[j as int]));
        j = j + 1;
    }
    assert(s@.subrange(i + 1, j as int) =~= s@.skip(i + 1));
    Some((before, after))
}

/// What the standard library says of bytes that are no UTF-8, in words.
pub uninterp spec fn utf8_complaint(bytes: Seq<u8>) -> Seq<char>;

/// `String::from_utf8` gives the text that the bytes encode. Where they are
/// not valid UTF-8 it gives an error that says in words what is wrong.
#[verifier::external_body]
pub(crate) fn utf8_text(bytes: Vec<u8>) -> (r: Result<String, String>)
    ensures
        match r {
            Ok(text) => valid_utf8(bytes@) && text@ == decode_utf8(bytes@),
            Err(message) => !valid_utf8(bytes@) && message@ == utf8_complaint(bytes@),
        },
{
    String::from_utf8(bytes).map_err(|error| error.to_string())
}

/// The pieces of a text between the occurrences of a separator.
pub open spec fn split(s: Seq<char>, sep: char) -> Seq<Seq<char>>
    decreases s.len(),
{
    if s.len() == 0 {
        seq![Seq::<char>::empty()]
    } else {
        let pieces = split(s.drop_last(), sep);
        if s.last() == sep {
            pieces.push(Seq::empty())
        } else {
            pieces.drop_last().push(pieces.last().push(s.last()))
        }
    }
}

/// A text has at least one piece.
pub proof fn lemma_split_nonempty(s: Seq<char>, sep: char)
    ensures
        split(s, sep).len() > 0,
    decreases s.len(),
{
    if s.len() > 0 {
        lemma_split_nonempty(s.drop_last(), sep);
    }
}

/// The views of a list of strings.
pub open spec fn texts(v: Seq<String>) -> Seq<Seq<char>> {
    v.map_values(|s: String| s@)
}

/// Variables and their values, over texts.
pub open spec fn pairs(environment: Seq<(&'static str, String)>) -> Seq<(Seq<char>, Seq<char>)> {
    environment.map_values(|pair: (&'static str, String)| (pair.0@, pair.1@))
}

/// Adds a variable.
pub fn push_variable(environment: &mut Vec<(&'static str, String)>, name: &'static str, value: String)
    ensures
        pairs(final(environment)@) == pairs(old(environment)@).push((name@, value@)),
{
    let ghost before = pairs(environment@);
    environment.push((name, value));
    assert(pairs(environment@) =~= before.push((name@, value@)));
}

/// The pieces of a string between the occurrences of a separator.
pub fn split_on(s: &str, sep: char) -> (pieces: Vec<String>)
    ensures
        texts(pieces@) == split(s@, sep),
        pieces@.len() > 0,
{
    let x = chars_of(s);
    let mut done: Vec<String> = Vec::new();
    let mut current = String::new();
    let mut i: usize = 0;
    assert(texts(done@).push(current@) =~= seq![Seq::<char>::empty()]);
    assert(x@.take(0) =~= Seq::<char>::empty());
    while i < x.len()
        invariant
            i <= x.len(),
            x@ == s@,
            texts(done@).push(current@) == split(x@.take(i as int), sep),
        decreases x.len() - i,
    {
        let ghost before = split(x@.take(i as int), sep);
        let ghost next = x@.take(i + 1);
        assert(next.drop_last() =~= x@.take(i as int));
        assert(next.last() == x@[i as int]);
        assert(before.last() == current@);
        assert(before.drop_last() =~= texts(done@));
        let c = x[i];
        if c == sep {
            let ghost old_done = texts(done@);
            done.push(current);
            assert(texts(done@) =~= old_done.push(current@));
            current = String::new();
        } else {
            current.push(c);
        }
        i = i + 1;
    }
    assert(x@.take(i as int) =~= s@);
    let ghost old_done = texts(done@);
    done.push(current);
    assert(texts(done@) =~= old_done.push(current@));
    done
}

/// A line of a text, given its pieces between line feeds: without the carriage
/// return before the line feed.
pub open spec fn line_at(pieces: Seq<Seq<char>>, i: int) -> Seq<char> {
    if i < pieces.len() - 1 && pieces[i].len() > 0 && pieces[i].last() == '\r' {
        pieces[i].drop_last()
    } else {
        pieces[i]
    }
}

/// Texts joined with a separator between each two neighbours.
pub open spec fn join(parts: Seq<Seq<char>>, sep: Seq<char>) -> Seq<char>
    decreases parts.len(),
{
    if parts.len() == 0 {
        Seq::empty()
    } else if parts.len() == 1 {
        parts[0]
    } else {
        join(parts.drop_last(), sep) + sep + parts.last()
    }
}

/// Joins strings with a separator between each two neighbours.
pub fn join_texts(parts: &[String], sep: &str) -> (r: String)
    ensures
        r@ == join(texts(parts@), sep@),
{
    let mut r = String::new();
    let mut i: usize = 0;
    assert(texts(parts@).take(0) =~= Seq::<Seq<char>>::empty());
    while i < parts.len()
        invariant
            i <= parts.len(),
            r@ == join(texts(parts@).take(i as int), sep@),
        decreases parts.len() - i,
    {
        let ghost next = texts(parts@).take(i + 1);
        assert(next.drop_last() =~= texts(parts@).take(i as int));
        assert(next.last() == parts@[i as int]@);
        if i > 0 {
            r.append(sep);
        }
        r.append(parts[i].as_str());
        assert(i == 0 ==> r@ =~= parts@[0]@);
        i = i + 1;
    }
    assert(texts(parts@).take(i as int) =~= texts(parts@));
    r
}

/// The digit character of a number below ten.
pub open spec fn digit_char(d: int) -> char {
    ('0' as int + d) as char
}

/// The decimal digits of a natural number.
pub open spec fn decimal(n: nat) -> Seq<char>
    decreases n,
{
    if n < 10 {
        seq![digit_char(n as int)]
    } else {
        decimal(n / 10).push(digit_char((n % 10) as int))
    }
}

/// Writes a number in decimal.
pub fn decimal_text(n: u64) -> (r: String)
    ensures
        r@ == decimal(n as nat),
    decreases n,
{
    let mut r = if n < 10 {
        String::new()
    } else {
        decimal_text(n / 10)
    };
    let d: u8 = (n % 10) as u8;
    r.push((48 + d) as char);
    assert(n < 10 ==> r@ =~= seq![digit_char(n as int)]);
    r
}

/// An integer in decimal, with a sign where it is negative.
pub open spec fn signed_decimal(n: int) -> Seq<char> {
    if n < 0 {
        seq!['-'] + decimal((-n) as nat)
    } else {
        decimal(n as nat)
    }
}

/// Writes an integer in decimal.
pub fn signed_decimal_text(n: i64) -> (r: String)
    requires
        n > i64::MIN,
    ensures
        r@ == signed_decimal(n as int),
{
    if n < 0 {
        let mut r = String::new();
        r.push('-');
        r.append(decimal_text((-n) as u64).as_str());
        assert(r@ =~= seq!['-'] + decimal((-n) as nat));
        r
    } else {
        decimal_text(n as u64)
    }
}

/// How the standard library shows a string to developers: in quotation marks
/// and with escapes.
pub uninterp spec fn debug_text(s: Seq<char>) -> Seq<char>;

/// The `Debug` output of a string.
#[verifier::external_body]
pub(crate) fn debug_quoted(s: &str) -> (r: String)
    ensures
        r@ == debug_text(s@),
{
    format!("{:?}", s)
}

/// The number that decimal digits stand for.
pub open spec fn digits_value(s: Seq<char>) -> nat
    decreases s.len(),
{
    if s.len() == 0 {
        0
    } else {
        digits_value(s.drop_last()) * 10 + (s.last() as int - '0' as int) as nat
    }
}

/// At least one character, and only decimal digits.
pub open spec fn all_digits(s: Seq<char>) -> bool {
    s.len() > 0 && forall|i: int| 0 <= i < s.len() ==> is_digit(#[trigger] s[i])
}

/// The natural number that a text is: decimal digits after an optional plus
/// sign.
pub open spec fn natural_of(s: Seq<char>) -> Option<nat> {
    let digits = if s.len() > 0 && s[0] == '+' {
        s.drop_first()
    } else {
        s
    };
    if all_digits(digits) {
        Some(digits_value(digits))
    } else {
        None
    }
}

/// The integer that a text is: decimal digits after an optional sign.
pub open spec fn integer_of(s: Seq<char>) -> Option<int> {
    if s.len() > 0 && s[0] == '-' {
        if all_digits(s.drop_first()) {
            Some(-(digits_value(s.drop_first()) as int))
        } else {
            None
        }
    } else {
        match natural_of(s) {
            Some(n) => Some(n as int),
            None => None,
        }
    }
}

/// A longer number is at least as large.
proof fn lemma_digits_grow(s: Seq<char>, n: int)
    requires
        0 <= n <= s.len(),
        forall|i: int| 0 <= i < s.len() ==> is_digit(#[trigger] s[i]),
    ensures
        digits_value(s.take(n)) <= digits_value(s),
    decreases s.len(),
{
    if n == s.len() {
        assert(s.take(n) =~= s);
    } else {
        assert(s.drop_last().take(n) =~= s.take(n));
        lemma_digits_grow(s.drop_last(), n);
    }
}

/// Reads a natural number of 64 bits.
pub fn parse_u64(s: &str) -> (r: Option<u64>)
    ensures
        match r {
            Some(n) => natural_of(s@) == Some(n as nat),
            None => natural_of(s@) is None || natural_of(s@)->0 > u64::MAX,
        },
{
    let x = chars_of(s);
    let from: usize = if x.len() > 0 && x[0] == '+' {
        1
    } else {
        0
    };
    let ghost digits = s@.skip(from as int);
    assert(from == 1 ==> digits =~= s@.drop_first());
    assert(from == 0 ==> digits =~= s@);
    if from == x.len() {
        return None;
    }
    let mut n: u64 = 0;
    let mut i: usize = from;
    assert(digits.take(0) =~= Seq::<char>::empty());
    while i < x.len()
        invariant
            from <= i <= x.len(),
            from < x.len(),
            x@ == s@,
            digits == s@.skip(from as int),
            natural_of(s@) == (if all_digits(digits) {
                Some(digits_value(digits))
            } else {
                None::<nat>
            }),
            forall|j: int| 0 <= j < i - from ==> is_digit(#[trigger] digits[j]),
            n == digits_value(digits.take(i - from)),
        decreases x.len() - i,
    {
        let c = x[i];
        assert(digits[i - from] == c);
        if !char_is_digit(c) {
            return None;
        }
        let ghost next = digits.take(i - from + 1);
        assert(next.drop_last() =~= digits.take(i - from));
        assert(next.last() == c);
        let d: u64 = (c as u64) - 48;
        let grown = match n.checked_mul(10) {
            Some(tens) => tens.checked_add(d),
            None => None,
        };
        match grown {
            Some(value) => {
                n = value;
            },
            None => {
                proof {
                    if all_digits(digits) {
                        lemma_digits_grow(digits, i - from + 1);
                    }
                }
                return None;
            },
        }
        i = i + 1;
    }
    assert(digits.take(i - from) =~= digits);
    Some(n)
}

/// Texts are in the order of the first place where they differ; a text comes after each of its
/// own beginnings.
pub proof fn texts_are_ordered_by_their_first_difference(a: Seq<char>, b: Seq<char>, n: int)
    requires
        0 <= n <= a.len(),
        n <= b.len(),
        a.take(n) == b.take(n),
        n == a.len() || n == b.len() || a[n] != b[n],
    ensures
        text_less(a, b) <==> n < b.len() && (n == a.len() || a[n] < b[n]),
    decreases n,
{
    if n > 0 {
        assert(a.take(n)[0] == a[0]);
        assert(b.take(n)[0] == b[0]);
        assert(a.drop_first().take(n - 1) =~= a.take(n).drop_first());
        assert(b.drop_first().take(n - 1) =~= b.take(n).drop_first());
        texts_are_ordered_by_their_first_difference(a.drop_first(), b.drop_first(), n - 1);
    }
}

/// Joined with the separator, the pieces of a text are the text again, and no piece holds the
/// separator.
pub proof fn joining_undoes_splitting(s: Seq<char>, sep: char)
    ensures
        split(s, sep).len() > 0,
        join(split(s, sep), seq![sep]) == s,
        forall|i: int| 0 <= i < split(s, sep).len() ==> !(#[trigger] split(s, sep)[i]).contains(sep),
    decreases s.len(),
{
    if s.len() > 0 {
        let before = split(s.drop_last(), sep);
        joining_undoes_splitting(s.drop_last(), sep);
        let pieces = split(s, sep);
        if s.last() == sep {
            assert(pieces.drop_last() =~= before);
            assert(join(pieces, seq![sep]) =~= s);
        } else {
            assert(pieces.drop_last() =~= before.drop_last());
            assert(join(pieces, seq![sep]) =~= join(before, seq![sep]).push(s.last()));
            assert forall|i: int| 0 <= i < pieces.len() implies !(#[trigger] pieces[i]).contains(
                sep,
            ) by {
                assert(!before[i].contains(sep));
                if i == pieces.len() - 1 && pieces[i].contains(sep) {
                    let k = choose|k: int| 0 <= k < pieces[i].len() && pieces[i][k] == sep;
                    assert(before[i][k] == sep);
                }
            }
        }
        assert(s =~= s.drop_last().push(s.last()));
    } else {
        assert(join(split(s, sep), seq![sep]) =~= s);
    }
}

/// Texts that do not hold the separator come back when what they were joined to is split.
pub proof fn splitting_undoes_joining(parts: Seq<Seq<char>>, sep: char)
    requires
        parts.len() > 0,
        forall|i: int| 0 <= i < parts.len() ==> !(#[trigger] parts[i]).contains(sep),
    ensures
        split(join(parts, seq![sep]), sep) == parts,
    decreases parts.len(), parts.last().len(),
{
    let s = join(parts, seq![sep]);
    if parts.last().len() == 0 {
        assert(parts.last() =~= Seq::<char>::empty());
        if parts.len() == 1 {
            assert(s =~= Seq::<char>::empty());
            assert(split(s, sep) =~= parts);
        } else {
            splitting_undoes_joining(parts.drop_last(), sep);
            assert(s.drop_last() =~= join(parts.drop_last(), seq![sep]));
            assert(split(s, sep) =~= parts.drop_last().push(Seq::empty()));
            assert(split(s, sep) =~= parts);
        }
    } else {
        let shorter = parts.drop_last().push(parts.last().drop_last());
        assert forall|i: int| 0 <= i < shorter.len() implies !(#[trigger] shorter[i]).contains(
            sep,
        ) by {
            assert(!parts[i].contains(sep));
            if shorter[i].contains(sep) {
                let k = choose|k: int| 0 <= k < shorter[i].len() && shorter[i][k] == sep;
                assert(parts[i][k] == sep);
            }
        }
        splitting_undoes_joining(shorter, sep);
        assert(shorter.drop_last() =~= parts.drop_last());
        assert(s.drop_last() =~= join(shorter, seq![sep]));
        assert(s.last() == parts.last().last());
        assert(!parts[parts.len() - 1].contains(sep));
        assert(s.last() != sep);
        assert(parts.last() =~= shorter.last().push(s.last()));
        assert(split(s, sep) =~= parts);
    }
}

/// The pieces of two texts with a separator between them are those of the first and those of the
/// second one.
pub proof fn splitting_goes_over_the_separator(a: Seq<char>, b: Seq<char>, sep: char)
    ensures
        split(a.push(sep) + b, sep) == split(a, sep) + split(b, sep),
    decreases b.len(),
{
    let s = a.push(sep) + b;
    lemma_split_nonempty(b, sep);
    if b.len() == 0 {
        assert(s =~= a.push(sep));
        assert(s.drop_last() =~= a);
        assert(split(s, sep) =~= split(a, sep) + split(b, sep));
    } else {
        assert(s.drop_last() =~= a.push(sep) + b.drop_last());
        splitting_goes_over_the_separator(a, b.drop_last(), sep);
        lemma_split_nonempty(b.drop_last(), sep);
        assert(split(s, sep) =~= split(a, sep) + split(b, sep));
    }
}

/// A text is cut at the first occurrence of the character, and not at all where there is none.
pub proof fn texts_are_cut_at_the_first_occurrence(s: Seq<char>, c: char)
    ensures
        cut_at(s, c) is Some <==> s.contains(c),
        match cut_at(s, c) {
            Some((before, after)) => s == before.push(c) + after && !before.contains(c),
            None => true,
        },
    decreases s.len(),
{
    if s.len() > 0 {
        assert(s =~= seq![s[0]] + s.drop_first());
        texts_are_cut_at_the_first_occurrence(s.drop_first(), c);
        if s[0] == c {
            assert(s.contains(c));
            assert(s =~= Seq::<char>::empty().push(c) + s.drop_first());
        } else {
            if s.contains(c) {
                let k = choose|k: int| 0 <= k < s.len() && s[k] == c;
                assert(s.drop_first()[k - 1] == c);
            }
            if let Some((before, after)) = cut_at(s.drop_first(), c) {
                let k = choose|k: int| 0 <= k < s.drop_first().len() && s.drop_first()[k] == c;
                assert(s[k + 1] == c);
                assert(s =~= (seq![s[0]] + before).push(c) + after);
                assert(!(seq![s[0]] + before).contains(c)) by {
                    if (seq![s[0]] + before).contains(c) {
                        let j = choose|j: int|
                            0 <= j < before.len() + 1 && (seq![s[0]] + before)[j] == c;
                        assert(before[j - 1] == c);
                    }
                }
            }
        }
    }
}

/// What is trimmed from the end of a text is the longest tail of trimmed characters.
pub proof fn trimming_the_end_keeps_the_rest(s: Seq<char>, t: Trim)
    ensures
        trim_end(s, t).len() <= s.len(),
        trim_end(s, t) == s.take(trim_end(s, t).len() as int),
        forall|i: int| trim_end(s, t).len() <= i < s.len() ==> trims(t, #[trigger] s[i]),
        trim_end(s, t).len() > 0 ==> !trims(t, trim_end(s, t).last()),
    decreases s.len(),
{
    if s.len() > 0 && trims(t, s.last()) {
        trimming_the_end_keeps_the_rest(s.drop_last(), t);
        let n = trim_end(s, t).len() as int;
        assert(s.drop_last().take(n) =~= s.take(n));
        assert forall|i: int| n <= i < s.len() implies trims(t, #[trigger] s[i]) by {
            if i < s.len() - 1 {
                assert(s.drop_last()[i] == s[i]);
            }
        }
    } else {
        assert(s.take(s.len() as int) =~= s);
    }
}

/// What is trimmed from the start of a text is the longest run of trimmed characters there.
pub proof fn trimming_the_start_keeps_the_rest(s: Seq<char>, t: Trim)
    ensures
        trim_start(s, t).len() <= s.len(),
        trim_start(s, t) == s.skip(s.len() - trim_start(s, t).len()),
        forall|i: int| 0 <= i < s.len() - trim_start(s, t).len() ==> trims(t, #[trigger] s[i]),
        trim_start(s, t).len() > 0 ==> !trims(t, trim_start(s, t)[0]),
    decreases s.len(),
{
    if s.len() > 0 && trims(t, s[0]) {
        trimming_the_start_keeps_the_rest(s.drop_first(), t);
        let n = s.len() - trim_start(s, t).len();
        assert(s.drop_first().skip(n - 1) =~= s.skip(n));
        assert forall|i: int| 0 <= i < n implies trims(t, #[trigger] s[i]) by {
            if i > 0 {
                assert(s.drop_first()[i - 1] == s[i]);
            }
        }
    } else {
        assert(s.skip(0) =~= s);
    }
}

/// A trimmed text is the part of the text between the trimmed characters at its two ends: nothing
/// inside it is lost, and neither of its own ends can be trimmed.
pub proof fn trimming_keeps_the_inside(s: Seq<char>, t: Trim) -> (from: int)
    ensures
        0 <= from <= s.len() - trim(s, t).len(),
        trim(s, t) == s.subrange(from, from + trim(s, t).len()),
        forall|i: int| 0 <= i < from ==> trims(t, #[trigger] s[i]),
        forall|i: int| from + trim(s, t).len() <= i < s.len() ==> trims(t, #[trigger] s[i]),
        trim(s, t).len() > 0 ==> !trims(t, trim(s, t)[0]) && !trims(t, trim(s, t).last()),
{
    let rest = trim_start(s, t);
    let from = s.len() - rest.len();
    trimming_the_start_keeps_the_rest(s, t);
    trimming_the_end_keeps_the_rest(rest, t);
    let n = trim(s, t).len() as int;
    assert(trim(s, t) =~= s.subrange(from, from + n));
    assert forall|i: int| from + n <= i < s.len() implies trims(t, #[trigger] s[i]) by {
        assert(rest[i - from] == s[i]);
    }
    from
}

/// A number is read back from its decimal digits, which are never more than needed.
pub proof fn decimal_digits_are_read_back(n: nat)
    ensures
        all_digits(decimal(n)),
        digits_value(decimal(n)) == n,
        natural_of(decimal(n)) == Some(n),
        decimal(n)[0] == '0' ==> n == 0 && decimal(n) == seq!['0'],
    decreases n,
{
    if n < 10 {
        let s = seq![digit_char(n as int)];
        assert(s.drop_last() =~= Seq::<char>::empty());
        assert(digits_value(s.drop_last()) == 0);
        assert(s.last() as int == '0' as int + n);
    } else {
        decimal_digits_are_read_back(n / 10);
        let s = decimal(n);
        assert(s.drop_last() =~= decimal(n / 10));
        assert(s.last() as int == '0' as int + n % 10);
        assert(s[0] == decimal(n / 10)[0]);
        assert forall|i: int| 0 <= i < s.len() implies is_digit(#[trigger] s[i]) by {
            if i < s.len() - 1 {
                assert(s[i] == decimal(n / 10)[i]);
            }
        }
        assert(digits_value(s) == digits_value(decimal(n / 10)) * 10 + n % 10);
    }
}

/// Digits without a leading zero are the decimal digits of the number they stand for.
pub proof fn digits_are_those_of_their_number(s: Seq<char>)
    requires
        all_digits(s),
        s[0] != '0' || s.len() == 1,
    ensures
        decimal(digits_value(s)) == s,
        s[0] != '0' ==> digits_value(s) > 0,
    decreases s.len(),
{
    let d = s.last() as int - '0' as int;
    assert(is_digit(s[s.len() - 1]));
    let front = s.drop_last();
    if s.len() == 1 {
        assert(digits_value(front) == 0);
        assert(decimal(digits_value(s)) =~= s);
    } else {
        assert forall|i: int| 0 <= i < front.len() implies is_digit(#[trigger] front[i]) by {
            assert(is_digit(s[i]));
        }
        digits_are_those_of_their_number(front);
        assert(digits_value(s) == digits_value(front) * 10 + d);
        assert(digits_value(s) / 10 == digits_value(front));
        assert(digits_value(s) % 10 == d);
        assert(decimal(digits_value(s)) =~= s);
    }
}

/// An integer is read back from its decimal digits and its sign.
pub proof fn signed_decimals_are_read_back(n: int)
    ensures
        integer_of(signed_decimal(n)) == Some(n),
{
    if n < 0 {
        decimal_digits_are_read_back((-n) as nat);
        assert(signed_decimal(n).drop_first() =~= decimal((-n) as nat));
    } else {
        decimal_digits_are_read_back(n as nat);
        assert(is_digit(decimal(n as nat)[0]));
    }
}

} // verus!
