//! Character and string primitives shared by the rest of the library.
//!
//! Strings are modelled by their sequence of characters. Everything here is
//! stated over `Seq<char>`; the executable functions work on `Vec<char>`
//! buffers obtained with [`chars_of`].

use vstd::prelude::*;
use vstd::string::StringExecFns;

verus! {

/// `String::push` appends exactly one character.
pub assume_specification[ String::push ](s: &mut String, c: char)
    ensures
        final(s)@ == old(s)@.push(c),
;

/// Two string slices compare equal exactly when they hold the same characters.
pub assume_specification[ <str as PartialEq>::eq ](a: &str, b: &str) -> (r: bool)
    ensures
        r == (a@ == b@),
;

/// The number of bytes that the UTF-8 encoding of `s` takes.
pub open spec fn utf8_len(s: Seq<char>) -> nat {
    vstd::utf8::encode_utf8(s).len()
}

/// The length of a string slice in bytes.
pub fn byte_len(s: &str) -> (n: usize)
    ensures
        n == utf8_len(s@),
{
    s.as_bytes().len()
}

/// Whether a character beyond ASCII has the Unicode `White_Space` property,
/// as `char::is_whitespace` reports it.
pub uninterp spec fn wide_white_space(c: char) -> bool;

/// White space: in ASCII the space and the five characters from the tab to
/// the carriage return, beyond ASCII what Unicode lists.
pub open spec fn white_space(c: char) -> bool {
    if (c as u32) < 0x80 {
        c == ' ' || ('\t' <= c && c <= '\r')
    } else {
        wide_white_space(c)
    }
}

/// `char::is_whitespace` is a function of the character alone. The ASCII
/// characters with the `White_Space` property are the space and U+0009 to
/// U+000D; for the others the result is named [`wide_white_space`].
pub assume_specification[ char::is_whitespace ](c: char) -> (r: bool)
    ensures
        r == if (c as u32) < 0x80 {
            c == ' ' || ('\t' <= c && c <= '\r')
        } else {
            wide_white_space(c)
        },
;

/// The Unicode lowercase mapping of a string, as `str::to_lowercase` computes it.
pub uninterp spec fn lowercase(s: Seq<char>) -> Seq<char>;

/// `str::to_lowercase` is a function of the characters alone; its result is
/// named [`lowercase`].
pub assume_specification[ str::to_lowercase ](s: &str) -> (r: String)
    ensures
        r@ == lowercase(s@),
;

/// An ASCII small letter.
pub open spec fn is_ascii_lower(c: char) -> bool {
    'a' <= c <= 'z'
}

/// An ASCII capital letter.
pub open spec fn is_ascii_upper(c: char) -> bool {
    'A' <= c <= 'Z'
}

/// An ASCII decimal digit.
pub open spec fn is_ascii_digit(c: char) -> bool {
    '0' <= c <= '9'
}

/// An ASCII letter or digit.
pub open spec fn is_ascii_alnum(c: char) -> bool {
    is_ascii_lower(c) || is_ascii_upper(c) || is_ascii_digit(c)
}

/// `c` with an ASCII capital replaced by its small letter.
pub open spec fn ascii_lower(c: char) -> char {
    if is_ascii_upper(c) {
        ((c as u8) + 32) as char
    } else {
        c
    }
}

/// Whether `c` is an ASCII small letter.
pub fn char_is_ascii_lower(c: char) -> (r: bool)
    ensures
        r == is_ascii_lower(c),
{
    'a' <= c && c <= 'z'
}

/// Whether `c` is an ASCII letter or digit.
pub fn char_is_ascii_alnum(c: char) -> (r: bool)
    ensures
        r == is_ascii_alnum(c),
{
    ('a' <= c && c <= 'z') || ('A' <= c && c <= 'Z') || ('0' <= c && c <= '9')
}

/// `c` in lower case, where it is an ASCII capital.
pub fn char_ascii_lower(c: char) -> (r: char)
    ensures
        r == ascii_lower(c),
{
    if 'A' <= c && c <= 'Z' {
        let b: u8 = c as u8;
        (b + 32) as char
    } else {
        c
    }
}

/// The characters of `s`, in order.
pub fn chars_of(s: &str) -> (out: Vec<char>)
    ensures
        out@ == s@,
{
    let mut out: Vec<char> = Vec::new();
    for c in it: s.chars()
        invariant
            out@ == s@.take(it.index() as int),
            it.seq() == s@,
    {
        out.push(c);
    }
    out
}

/// The string made of the characters `v[from..to]`.
pub fn string_of_range(v: &Vec<char>, from: usize, to: usize) -> (out: String)
    requires
        from <= to <= v.len(),
    ensures
        out@ == v@.subrange(from as int, to as int),
{
    let mut out = String::new();
    let mut i: usize = from;
    while i < to
        invariant
            from <= i <= to <= v.len(),
            out@ == v@.subrange(from as int, i as int),
        decreases to - i,
    {
        out.push(v[i]);
        i += 1;
    }
    out
}

/// The string made of the characters of `v`.
pub fn string_of(v: &Vec<char>) -> (out: String)
    ensures
        out@ == v@,
{
    let out = string_of_range(v, 0, v.len());
    assert(v@.subrange(0, v.len() as int) == v@);
    out
}

/// The pieces of `s` between the characters that `is_sep` marks. There is
/// always one piece more than there are separators, so the empty string has
/// one (empty) piece and a trailing separator is followed by an empty piece.
pub open spec fn split_by(s: Seq<char>, is_sep: spec_fn(char) -> bool) -> Seq<Seq<char>>
    decreases s.len(),
{
    if s.len() == 0 {
        seq![Seq::empty()]
    } else {
        let init = split_by(s.drop_last(), is_sep);
        if is_sep(s.last()) {
            init.push(Seq::empty())
        } else {
            init.drop_last().push(init.last().push(s.last()))
        }
    }
}

/// The predicate that holds of `sep` alone.
pub open spec fn is_char(sep: char) -> spec_fn(char) -> bool {
    |c: char| c == sep
}

/// The pieces of `s` between occurrences of `sep`.
pub open spec fn split_on(s: Seq<char>, sep: char) -> Seq<Seq<char>> {
    split_by(s, is_char(sep))
}

/// The view of a vector of character buffers.
pub open spec fn buffers(v: Seq<Vec<char>>) -> Seq<Seq<char>> {
    v.map_values(|b: Vec<char>| b@)
}

/// Splits `v` at every occurrence of `sep`.
pub fn split_chars(v: &Vec<char>, sep: char) -> (pieces: Vec<Vec<char>>)
    ensures
        buffers(pieces@) == split_on(v@, sep),
{
    let mut done: Vec<Vec<char>> = Vec::new();
    let mut cur: Vec<char> = Vec::new();
    let mut i: usize = 0;
    let ghost is_sep = is_char(sep);
    assert(v@.take(0) == Seq::<char>::empty());
    assert(buffers(done@).push(cur@) == seq![Seq::<char>::empty()]);
    while i < v.len()
        invariant
            i <= v.len(),
            is_sep == is_char(sep),
            buffers(done@).push(cur@) == split_by(v@.take(i as int), is_sep),
        decreases v.len() - i,
    {
        let c = v[i];
        proof {
            let prefix = v@.take(i as int + 1);
            assert(prefix.drop_last() == v@.take(i as int));
            assert(prefix.last() == c);
            let init = split_by(v@.take(i as int), is_sep);
            assert(init.drop_last() == buffers(done@));
            assert(init.last() == cur@);
        }
        if c == sep {
            let ghost before = buffers(done@).push(cur@);
            done.push(cur);
            cur = Vec::new();
            assert(buffers(done@) == before);
        } else {
            cur.push(c);
        }
        i += 1;
    }
    assert(v@.take(v.len() as int) == v@);
    let ghost whole = buffers(done@).push(cur@);
    done.push(cur);
    assert(buffers(done@) == whole);
    done
}

/// `a` followed by `b`.
pub fn str_concat(a: &str, b: &str) -> (out: String)
    ensures
        out@ == a@ + b@,
{
    let mut out = a.to_owned();
    out.append(b);
    out
}

/// Whether the characters of `s` from position `from` on begin with `prefix`.
pub fn has_prefix_at(s: &Vec<char>, from: usize, prefix: &Vec<char>) -> (r: bool)
    requires
        from <= s.len(),
    ensures
        r == prefix@.is_prefix_of(s@.skip(from as int)),
{
    if prefix.len() > s.len() - from {
        return false;
    }
    let mut i: usize = 0;
    while i < prefix.len()
        invariant
            from <= s.len(),
            prefix.len() <= s.len() - from,
            i <= prefix.len(),
            forall|k: int| 0 <= k < i ==> prefix@[k] == s@[from + k],
        decreases prefix.len() - i,
    {
        if prefix[i] != s[from + i] {
            assert(s@.skip(from as int).subrange(0, prefix@.len() as int)[i as int] == s@[from + i]);
            return false;
        }
        i += 1;
    }
    assert(prefix@ =~= s@.skip(from as int).subrange(0, prefix@.len() as int));
    true
}

/// Whether `s` begins with `prefix`.
pub fn starts_with(s: &str, prefix: &str) -> (r: bool)
    ensures
        r == prefix@.is_prefix_of(s@),
{
    let chars = chars_of(s);
    let head = chars_of(prefix);
    assert(chars@.skip(0) == chars@);
    has_prefix_at(&chars, 0, &head)
}

/// The rest of `s` after `prefix`, if `s` begins with it.
pub open spec fn strip_prefix(s: Seq<char>, prefix: Seq<char>) -> Option<Seq<char>> {
    if prefix.is_prefix_of(s) {
        Some(s.skip(prefix.len() as int))
    } else {
        None
    }
}

/// The predicate that holds of white space.
pub open spec fn is_white() -> spec_fn(char) -> bool {
    |c: char| white_space(c)
}

/// The pieces that are not empty, in order.
pub open spec fn nonempty(pieces: Seq<Seq<char>>) -> Seq<Seq<char>>
    decreases pieces.len(),
{
    if pieces.len() == 0 {
        Seq::empty()
    } else if pieces.last().len() > 0 {
        nonempty(pieces.drop_last()).push(pieces.last())
    } else {
        nonempty(pieces.drop_last())
    }
}

/// The words of `s`: its maximal runs of characters that are not white space.
pub open spec fn words(s: Seq<char>) -> Seq<Seq<char>> {
    nonempty(split_by(s, is_white()))
}

/// Splits `v` into its words.
pub fn split_words(v: &Vec<char>) -> (found: Vec<Vec<char>>)
    ensures
        buffers(found@) == words(v@),
{
    let mut done: Vec<Vec<char>> = Vec::new();
    let mut cur: Vec<char> = Vec::new();
    let mut i: usize = 0;
    assert(v@.take(0) == Seq::<char>::empty());
    assert(buffers(done@) == Seq::<Seq<char>>::empty());
    assert(split_by(v@.take(0), is_white()).drop_last() == Seq::<Seq<char>>::empty());
    while i < v.len()
        invariant
            i <= v.len(),
            split_by(v@.take(i as int), is_white()).len() >= 1,
            split_by(v@.take(i as int), is_white()).last() == cur@,
            nonempty(split_by(v@.take(i as int), is_white()).drop_last()) == buffers(done@),
        decreases v.len() - i,
    {
        let c = v[i];
        let ghost init = split_by(v@.take(i as int), is_white());
        proof {
            let prefix = v@.take(i as int + 1);
            assert(prefix.drop_last() == v@.take(i as int));
            assert(prefix.last() == c);
        }
        if c.is_whitespace() {
            assert(init.push(Seq::empty()).drop_last() == init);
            if cur.len() > 0 {
                let ghost before = buffers(done@);
                done.push(cur);
                assert(buffers(done@) == before.push(init.last()));
            }
            cur = Vec::new();
        } else {
            assert(init.drop_last().push(init.last().push(c)).drop_last() == init.drop_last());
            cur.push(c);
        }
        i += 1;
    }
    assert(v@.take(v.len() as int) == v@);
    if cur.len() > 0 {
        let ghost before = buffers(done@);
        done.push(cur);
        assert(buffers(done@) == before.push(split_by(v@, is_white()).last()));
    }
    done
}

/// The pieces joined, with `sep` between each two.
pub open spec fn join(pieces: Seq<Seq<char>>, sep: Seq<char>) -> Seq<char>
    decreases pieces.len(),
{
    if pieces.len() == 0 {
        Seq::empty()
    } else if pieces.len() == 1 {
        pieces[0]
    } else {
        join(pieces.drop_last(), sep) + sep + pieces.last()
    }
}

} // verus!
