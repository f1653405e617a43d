//! Repository paths as callers write them, and the form in which they are kept.

use vstd::prelude::*;
use vstd::string::*;

verus! {

/// The source path of the monorepo root.
pub const DEFAULT_SOURCE_PATH: &'static str = "/";

/// A kind of character that is stripped from the ends of a path.
#[derive(Clone, Copy, PartialEq, Eq, Structural)]
pub enum CharClass {
    /// The characters with the Unicode property `White_Space`.
    WhiteSpace,
    /// The path separator.
    Slash,
}

/// The code points with the Unicode property `White_Space`.
pub open spec fn is_white_space(c: char) -> bool {
    let v = c as u32;
    ||| 0x9 <= v <= 0xD
    ||| v == 0x20
    ||| v == 0x85
    ||| v == 0xA0
    ||| v == 0x1680
    ||| 0x2000 <= v <= 0x200A
    ||| v == 0x2028
    ||| v == 0x2029
    ||| v == 0x202F
    ||| v == 0x205F
    ||| v == 0x3000
}

impl CharClass {
    /// Whether `c` is of this class.
    pub open spec fn has_char(self, c: char) -> bool {
        match self {
            CharClass::WhiteSpace => is_white_space(c),
            CharClass::Slash => c == '/',
        }
    }

    /// Tells whether `c` is of this class.
    pub fn contains(self, c: char) -> (res: bool)
        ensures
            res == self.has_char(c),
    {
        match self {
            CharClass::WhiteSpace => {
                let v: u32 = c as u32;
                (0x9 <= v && v <= 0xD) || v == 0x20 || v == 0x85 || v == 0xA0 || v == 0x1680
                    || (0x2000 <= v && v <= 0x200A) || v == 0x2028 || v == 0x2029 || v == 0x202F
                    || v == 0x205F || v == 0x3000
            },
            CharClass::Slash => c == '/',
        }
    }
}

/// `s` without the characters of `class` at its front.
pub open spec fn trim_front(s: Seq<char>, class: CharClass) -> Seq<char>
    decreases s.len(),
{
    if s.len() > 0 && class.has_char(s.first()) {
        trim_front(s.drop_first(), class)
    } else {
        s
    }
}

/// `s` without the characters of `class` at its back.
pub open spec fn trim_back(s: Seq<char>, class: CharClass) -> Seq<char>
    decreases s.len(),
{
    if s.len() > 0 && class.has_char(s.last()) {
        trim_back(s.drop_last(), class)
    } else {
        s
    }
}

/// `s` without the characters of `class` at either end.
pub open spec fn trim_ends(s: Seq<char>, class: CharClass) -> Seq<char> {
    trim_back(trim_front(s, class), class)
}

/// The characters of a string, in order.
fn chars_of(s: &str) -> (chars: Vec<char>)
    ensures
        chars@ == s@,
{
    let mut chars: Vec<char> = Vec::new();
    for c in it: s.chars()
        invariant
            it.seq() == s@,
            chars@ == s@.take(it.index() as int),
    {
        chars.push(c);
    }
    assert(s@.take(s@.len() as int) == s@);
    chars
}

/// The index of the first character of `chars` that is not of `class`.
fn front_bound(chars: &Vec<char>, class: CharClass) -> (from: usize)
    ensures
        from <= chars@.len(),
        trim_front(chars@, class) == chars@.skip(from as int),
{
    let mut from: usize = 0;
    assert(chars@.skip(0) == chars@);
    while from < chars.len() && class.contains(chars[from])
        invariant
            from <= chars@.len(),
            trim_front(chars@, class) == trim_front(chars@.skip(from as int), class),
        decreases chars@.len() - from,
    {
        assert(chars@.skip(from as int).drop_first() == chars@.skip(from + 1));
        from = from + 1;
    }
    from
}

/// The index behind the last character of `chars` at or after `from` that is not of `class`.
fn back_bound(chars: &Vec<char>, from: usize, class: CharClass) -> (to: usize)
    requires
        from <= chars@.len(),
    ensures
        from <= to <= chars@.len(),
        trim_back(chars@.skip(from as int), class) == chars@.subrange(from as int, to as int),
{
    let mut to: usize = chars.len();
    assert(chars@.subrange(from as int, to as int) == chars@.skip(from as int));
    while to > from && class.contains(chars[to - 1])
        invariant
            from <= to <= chars@.len(),
            trim_back(chars@.skip(from as int), class) == trim_back(
                chars@.subrange(from as int, to as int),
                class,
            ),
        decreases to,
    {
        assert(chars@.subrange(from as int, to as int).drop_last() == chars@.subrange(
            from as int,
            to - 1,
        ));
        to = to - 1;
    }
    to
}

/// Strips the characters of `class` from the front of `s`.
pub fn trim_start<'a>(s: &'a str, class: CharClass) -> (res: &'a str)
    ensures
        res@ == trim_front(s@, class),
{
    let chars = chars_of(s);
    let from: usize = front_bound(&chars, class);
    assert(s@.skip(from as int) == s@.subrange(from as int, s@.len() as int));
    s.substring_char(from, chars.len())
}

/// Strips the characters of `class` from both ends of `s`.
pub fn trim<'a>(s: &'a str, class: CharClass) -> (res: &'a str)
    ensures
        res@ == trim_ends(s@, class),
{
    let chars = chars_of(s);
    let from: usize = front_bound(&chars, class);
    let to: usize = back_bound(&chars, from, class);
    s.substring_char(from, to)
}

/// The form in which a repository path is kept: one slash, then the path without the
/// white space around it and without the slashes at its ends.
pub open spec fn normalized_path(path: Seq<char>) -> Seq<char> {
    seq!['/'] + trim_ends(trim_ends(path, CharClass::WhiteSpace), CharClass::Slash)
}

/// Whether a path names nothing below the root: white space apart, it is empty or one slash.
pub open spec fn names_root(path: Seq<char>) -> bool {
    let bare = trim_ends(path, CharClass::WhiteSpace);
    bare.len() == 0 || bare == seq!['/']
}

/// The ready path that a request asks for: none where it names nothing below the root.
pub open spec fn normalized_ready(path: Option<Seq<char>>) -> Option<Seq<char>> {
    match path {
        Some(p) => if names_root(p) {
            None
        } else {
            Some(normalized_path(p))
        },
        None => None,
    }
}

/// The view of an optional string slice.
pub open spec fn str_view(s: Option<&str>) -> Option<Seq<char>> {
    match s {
        Some(s) => Some(s@),
        None => None,
    }
}

/// The view of an optional string.
pub open spec fn string_view(s: Option<String>) -> Option<Seq<char>> {
    match s {
        Some(s) => Some(s@),
        None => None,
    }
}

/// Tells whether `text` is exactly one slash.
pub(crate) fn is_slash(text: &str) -> (res: bool)
    ensures
        res == (text@ == seq!['/']),
{
    if text.unicode_len() == 1 {
        let slash = text.get_char(0) == '/';
        assert(slash ==> text@ =~= seq!['/']);
        slash
    } else {
        false
    }
}

/// Tells whether `bare` is empty or exactly one slash.
fn is_root(bare: &str) -> (res: bool)
    ensures
        res == (bare@.len() == 0 || bare@ == seq!['/']),
{
    bare.unicode_len() == 0 || is_slash(bare)
}

/// A slash, followed by `bare` without the slashes at its ends.
fn rooted(bare: &str) -> (res: String)
    ensures
        res@ == seq!['/'] + trim_ends(bare@, CharClass::Slash),
{
    let mut res = default_source_path();
    res.append(trim(bare, CharClass::Slash));
    res
}

/// The source path of an instance whose record names none: the monorepo root.
pub fn default_source_path() -> (res: String)
    ensures
        res@ == seq!['/'],
{
    proof {
        reveal_strlit("/");
    }
    let res = DEFAULT_SOURCE_PATH.to_string();
    assert(res@ =~= seq!['/']);
    res
}

/// The source path of a mount request, in the form in which it is kept.
pub fn normalize_source_path(source_path: &str) -> (res: String)
    ensures
        res@ == normalized_path(source_path@),
{
    let trimmed = trim(source_path, CharClass::WhiteSpace);
    if is_root(trimmed) {
        proof {
            lemma_root_has_no_body(trimmed@);
            assert(seq!['/'] + Seq::<char>::empty() =~= seq!['/']);
        }
        default_source_path()
    } else {
        rooted(trimmed)
    }
}

/// The ready path of a mount request, or `None` where it names nothing below the root.
pub fn normalize_ready_path(ready_path: Option<&str>) -> (res: Option<String>)
    ensures
        string_view(res) == normalized_ready(str_view(ready_path)),
{
    match ready_path {
        None => None,
        Some(path) => {
            let trimmed = trim(path, CharClass::WhiteSpace);
            if is_root(trimmed) {
                None
            } else {
                Some(rooted(trimmed))
            }
        },
    }
}

/// Nothing is left of an empty path or of one slash once the slashes are gone.
proof fn lemma_root_has_no_body(bare: Seq<char>)
    requires
        bare.len() == 0 || bare == seq!['/'],
    ensures
        trim_ends(bare, CharClass::Slash) == Seq::<char>::empty(),
{
    reveal_with_fuel(trim_front, 2);
    if bare.len() == 0 {
        assert(bare =~= Seq::empty());
    } else {
        assert(bare.drop_first() =~= Seq::empty());
    }
}

/// Whether `word` stands in `text` at `at`.
pub open spec fn occurs_at(text: Seq<char>, word: Seq<char>, at: int) -> bool {
    0 <= at && at + word.len() <= text.len() && text.subrange(at, at + word.len()) == word
}

/// Whether `word` stands somewhere in `text`.
pub open spec fn occurs_in(text: Seq<char>, word: Seq<char>) -> bool {
    exists|at: int| occurs_at(text, word, at)
}

/// Tells whether `word` stands in `text` at `at`.
fn stands_at(text: &Vec<char>, word: &Vec<char>, at: usize) -> (res: bool)
    requires
        at <= text@.len(),
    ensures
        res == occurs_at(text@, word@, at as int),
{
    if word.len() > text.len() - at {
        return false;
    }
    let len: usize = text.len();
    let mut i: usize = 0;
    while i < word.len()
        invariant
            len == text@.len(),
            at + word@.len() <= len,
            i <= word@.len(),
            forall|j: int| 0 <= j < i ==> text@[at + j] == #[trigger] word@[j],
        decreases word@.len() - i,
    {
        if text[at + i] != word[i] {
            assert(text@.subrange(at as int, at + word@.len())[i as int] == text@[at + i]);
            return false;
        }
        i = i + 1;
    }
    assert(text@.subrange(at as int, at + word@.len()) =~= word@);
    true
}

/// Tells whether `word` stands somewhere in `text`.
pub fn contains(text: &str, word: &str) -> (res: bool)
    ensures
        res == occurs_in(text@, word@),
{
    let text_chars = chars_of(text);
    let word_chars = chars_of(word);
    let mut at: usize = 0;
    loop
        invariant
            text_chars@ == text@,
            word_chars@ == word@,
            at <= text@.len(),
            forall|j: int| 0 <= j < at ==> !#[trigger] occurs_at(text@, word@, j),
        decreases text@.len() - at,
    {
        if stands_at(&text_chars, &word_chars, at) {
            assert(occurs_at(text@, word@, at as int));
            return true;
        }
        if at == text_chars.len() {
            assert forall|j: int| !#[trigger] occurs_at(text@, word@, j) by {}
            return false;
        }
        at = at + 1;
    }
}

} // verus!
