//! What holds of repository paths and of the paths of layers.

use vstd::prelude::*;
use vstd::utf8::*;

use crate::fs_path::{
    joined, last_is_blank, last_start, lead_len, lemma_last_start_bounds, parent_of, starts_at_dot,
    without_blanks, without_last, DOT, SEPARATOR,
};
use crate::ids::is_random_uuid;
use crate::mount::store_ready_path;
use crate::probe::{below, kept_target, ready_target};
use crate::text::{
    normalized_path, normalized_ready, occurs_at, occurs_in, trim_back, trim_ends, trim_front,
    CharClass,
};

verus! {

/// Every character of `s` is of `class`.
pub open spec fn all_of(s: Seq<char>, class: CharClass) -> bool {
    forall|i: int| 0 <= i < s.len() ==> class.has_char(#[trigger] s[i])
}

/// `s` neither begins nor ends with a character of `class`.
pub open spec fn bare_of(s: Seq<char>, class: CharClass) -> bool {
    s.len() > 0 ==> !class.has_char(s.first()) && !class.has_char(s.last())
}

/// What is left after trimming the front does not begin with a character of the class.
proof fn lemma_trim_front(s: Seq<char>, class: CharClass)
    ensures
        trim_front(s, class).len() <= s.len(),
        trim_front(s, class) == s.skip(s.len() - trim_front(s, class).len()),
        trim_front(s, class).len() > 0 ==> !class.has_char(trim_front(s, class).first()),
    decreases s.len(),
{
    if s.len() > 0 && class.has_char(s.first()) {
        lemma_trim_front(s.drop_first(), class);
        let t = trim_front(s, class);
        assert(s.drop_first().skip(s.len() - 1 - t.len()) =~= s.skip(s.len() - t.len()));
    } else {
        assert(s.skip(0) =~= s);
    }
}

/// What is left after trimming the back does not end with a character of the class.
proof fn lemma_trim_back(s: Seq<char>, class: CharClass)
    ensures
        trim_back(s, class).len() <= s.len(),
        trim_back(s, class) == s.take(trim_back(s, class).len() as int),
        trim_back(s, class).len() > 0 ==> !class.has_char(trim_back(s, class).last()),
    decreases s.len(),
{
    if s.len() > 0 && class.has_char(s.last()) {
        lemma_trim_back(s.drop_last(), class);
        let t = trim_back(s, class);
        assert(s.drop_last().take(t.len() as int) =~= s.take(t.len() as int));
    } else {
        assert(s.take(s.len() as int) =~= s);
    }
}

/// What is left after trimming both ends is bare of the class.
proof fn lemma_trim_ends_bare(s: Seq<char>, class: CharClass)
    ensures
        bare_of(trim_ends(s, class), class),
{
    lemma_trim_front(s, class);
    lemma_trim_back(trim_front(s, class), class);
}

/// Trimming takes nothing from what is bare of the class.
proof fn lemma_trim_ends_of_bare(s: Seq<char>, class: CharClass)
    requires
        bare_of(s, class),
    ensures
        trim_ends(s, class) == s,
{
}

/// Characters of the class in front are trimmed away.
proof fn lemma_trim_front_of_prefixed(l: Seq<char>, s: Seq<char>, class: CharClass)
    requires
        all_of(l, class),
    ensures
        trim_front(l + s, class) == trim_front(s, class),
    decreases l.len(),
{
    if l.len() > 0 {
        assert((l + s).first() == l[0]);
        assert((l + s).drop_first() =~= l.drop_first() + s);
        assert forall|i: int| 0 <= i < l.drop_first().len() implies class.has_char(
            #[trigger] l.drop_first()[i],
        ) by {
            assert(l.drop_first()[i] == l[i + 1]);
        }
        lemma_trim_front_of_prefixed(l.drop_first(), s, class);
    } else {
        assert(l + s =~= s);
    }
}

/// Characters of the class behind are trimmed away.
proof fn lemma_trim_back_of_suffixed(s: Seq<char>, r: Seq<char>, class: CharClass)
    requires
        all_of(r, class),
    ensures
        trim_back(s + r, class) == trim_back(s, class),
    decreases r.len(),
{
    if r.len() > 0 {
        assert((s + r).last() == r.last());
        assert(class.has_char(r[r.len() - 1]));
        assert((s + r).drop_last() =~= s + r.drop_last());
        assert forall|i: int| 0 <= i < r.drop_last().len() implies class.has_char(
            #[trigger] r.drop_last()[i],
        ) by {
            assert(r.drop_last()[i] == r[i]);
        }
        lemma_trim_back_of_suffixed(s, r.drop_last(), class);
    } else {
        assert(s + r =~= s);
    }
}

/// Trimming the front of `s` leaves nothing exactly where all of `s` is of the class, and is
/// not touched by what stands behind `s` otherwise.
proof fn lemma_trim_front_of_suffixed(s: Seq<char>, r: Seq<char>, class: CharClass)
    ensures
        trim_front(s, class).len() > 0 ==> trim_front(s + r, class) == trim_front(s, class) + r,
        trim_front(s, class).len() == 0 ==> trim_front(s + r, class) == trim_front(r, class),
    decreases s.len(),
{
    if s.len() > 0 {
        assert((s + r).first() == s.first());
        assert((s + r).drop_first() =~= s.drop_first() + r);
        if class.has_char(s.first()) {
            lemma_trim_front_of_suffixed(s.drop_first(), r, class);
        }
    } else {
        assert(s + r =~= r);
    }
}

/// Characters of the class at either end are trimmed away.
proof fn lemma_trim_ends_of_wrapped(l: Seq<char>, s: Seq<char>, r: Seq<char>, class: CharClass)
    requires
        all_of(l, class),
        all_of(r, class),
    ensures
        trim_ends(l + s + r, class) == trim_ends(s, class),
{
    assert(l + s + r =~= l + (s + r));
    lemma_trim_front_of_prefixed(l, s + r, class);
    lemma_trim_front_of_suffixed(s, r, class);
    if trim_front(s, class).len() > 0 {
        lemma_trim_back_of_suffixed(trim_front(s, class), r, class);
    } else {
        assert(r + Seq::<char>::empty() =~= r);
        lemma_trim_front_of_prefixed(r, Seq::empty(), class);
        assert(trim_front(s, class) =~= Seq::empty());
    }
}

/// Trimming takes the characters of the class at the ends, however many, and no other: what
/// stands between them, and is bare of the class, comes out whole.
pub proof fn law_trimming_leaves_what_is_bare(
    before: Seq<char>,
    body: Seq<char>,
    after: Seq<char>,
    class: CharClass,
)
    requires
        all_of(before, class),
        all_of(after, class),
        bare_of(body, class),
    ensures
        trim_ends(before + body + after, class) == body,
        trim_front(before + body + after, class) == (if body.len() > 0 {
            body + after
        } else {
            Seq::empty()
        }),
{
    lemma_trim_ends_of_wrapped(before, body, after, class);
    lemma_trim_ends_of_bare(body, class);
    assert(before + body + after =~= before + (body + after));
    lemma_trim_front_of_prefixed(before, body + after, class);
    if body.len() > 0 {
        assert((body + after).first() == body.first());
    } else {
        assert(body + after =~= after + Seq::<char>::empty());
        lemma_trim_front_of_prefixed(after, Seq::empty(), class);
    }
}

/// The characters of the class at the front of a text, and what follows them.
proof fn lemma_front_of(s: Seq<char>, class: CharClass) -> (front: Seq<char>)
    ensures
        all_of(front, class),
        s == front + trim_front(s, class),
    decreases s.len(),
{
    if s.len() > 0 && class.has_char(s.first()) {
        let rest = lemma_front_of(s.drop_first(), class);
        let front = seq![s.first()] + rest;
        assert(s =~= seq![s.first()] + s.drop_first());
        assert(s =~= front + trim_front(s, class));
        assert forall|i: int| 0 <= i < front.len() implies class.has_char(#[trigger] front[i]) by {
            if i > 0 {
                assert(front[i] == rest[i - 1]);
            }
        }
        front
    } else {
        assert(s =~= Seq::<char>::empty() + s);
        Seq::empty()
    }
}

/// The characters of the class at the back of a text, and what precedes them.
proof fn lemma_back_of(s: Seq<char>, class: CharClass) -> (back: Seq<char>)
    ensures
        all_of(back, class),
        s == trim_back(s, class) + back,
    decreases s.len(),
{
    if s.len() > 0 && class.has_char(s.last()) {
        let rest = lemma_back_of(s.drop_last(), class);
        let back = rest.push(s.last());
        assert(s =~= s.drop_last().push(s.last()));
        assert(s =~= trim_back(s, class) + back);
        assert forall|i: int| 0 <= i < back.len() implies class.has_char(#[trigger] back[i]) by {
            if i < rest.len() {
                assert(back[i] == rest[i]);
            }
        }
        back
    } else {
        assert(s =~= s + Seq::<char>::empty());
        Seq::empty()
    }
}

/// The parts of a repository path as a caller writes it.
#[verifier::ext_equal]
pub struct PathParts {
    /// White space in front.
    pub space_before: Seq<char>,
    /// Slashes behind that.
    pub slashes_before: Seq<char>,
    /// What the path is about.
    pub body: Seq<char>,
    /// Slashes behind the body.
    pub slashes_after: Seq<char>,
    /// White space at the end.
    pub space_after: Seq<char>,
}

impl PathParts {
    /// The path without the white space around it.
    pub open spec fn inner(self) -> Seq<char> {
        self.slashes_before + self.body + self.slashes_after
    }

    /// The path that the parts make up.
    pub open spec fn whole(self) -> Seq<char> {
        self.space_before + self.inner() + self.space_after
    }

    /// Whether each part holds what belongs there, and all of it.
    pub open spec fn proper(self) -> bool {
        &&& all_of(self.space_before, CharClass::WhiteSpace)
        &&& all_of(self.space_after, CharClass::WhiteSpace)
        &&& bare_of(self.inner(), CharClass::WhiteSpace)
        &&& all_of(self.slashes_before, CharClass::Slash)
        &&& all_of(self.slashes_after, CharClass::Slash)
        &&& bare_of(self.body, CharClass::Slash)
    }
}

/// Of a path, its body is kept behind one slash: all of it, whatever its length, and nothing
/// else. So is that of a ready path, but that one with no body and at most one slash asks for
/// nothing.
pub proof fn law_body_of_a_path_is_kept(parts: PathParts)
    requires
        parts.proper(),
    ensures
        normalized_path(parts.whole()) == seq!['/'] + parts.body,
        normalized_ready(Some(parts.whole())) == (if parts.body.len() == 0
            && parts.slashes_before.len() + parts.slashes_after.len() <= 1 {
            None
        } else {
            Some(seq!['/'] + parts.body)
        }),
        normalized_ready(None) == None::<Seq<char>>,
{
    let inner = parts.inner();
    lemma_trim_ends_of_wrapped(
        parts.space_before,
        inner,
        parts.space_after,
        CharClass::WhiteSpace,
    );
    lemma_trim_ends_of_bare(inner, CharClass::WhiteSpace);
    lemma_trim_ends_of_wrapped(
        parts.slashes_before,
        parts.body,
        parts.slashes_after,
        CharClass::Slash,
    );
    lemma_trim_ends_of_bare(parts.body, CharClass::Slash);
    if inner.len() == 1 && parts.body.len() == 0 {
        if parts.slashes_before.len() == 1 {
            assert(inner[0] == parts.slashes_before[0]);
        } else {
            assert(inner[0] == parts.slashes_after[0]);
        }
        assert(inner =~= seq!['/']);
    }
    if inner == seq!['/'] && parts.body.len() > 0 {
        assert(inner[parts.slashes_before.len() as int] == parts.body[0]);
        assert(parts.body.first() == '/');
    }
}

/// Every path has such parts; so the law on the body tells of every path what is kept of it.
pub proof fn law_every_path_has_parts(path: Seq<char>)
    ensures
        exists|parts: PathParts| #[trigger] parts.proper() && parts.whole() == path,
{
    let front = trim_front(path, CharClass::WhiteSpace);
    let space_before = lemma_front_of(path, CharClass::WhiteSpace);
    let space_after = lemma_back_of(front, CharClass::WhiteSpace);
    let inner = trim_ends(path, CharClass::WhiteSpace);
    lemma_trim_ends_bare(path, CharClass::WhiteSpace);
    let inner_front = trim_front(inner, CharClass::Slash);
    let slashes_before = lemma_front_of(inner, CharClass::Slash);
    let slashes_after = lemma_back_of(inner_front, CharClass::Slash);
    let body = trim_ends(inner, CharClass::Slash);
    lemma_trim_ends_bare(inner, CharClass::Slash);
    let parts = PathParts { space_before, slashes_before, body, slashes_after, space_after };
    assert(parts.inner() =~= inner);
    assert(parts.whole() =~= path);
    assert(parts.proper());
}

/// A word is found in a text exactly where the text is the word with something, or nothing,
/// before and behind it.
pub proof fn law_word_is_found_where_it_stands(text: Seq<char>, word: Seq<char>)
    ensures
        forall|before: Seq<char>, after: Seq<char>|
            text == #[trigger] (before + word + after) ==> occurs_in(text, word),
        occurs_in(text, word) ==> exists|before: Seq<char>, after: Seq<char>|
            text == #[trigger] (before + word + after),
{
    assert forall|before: Seq<char>, after: Seq<char>|
        text == #[trigger] (before + word + after) implies occurs_in(text, word) by {
        assert(text.subrange(before.len() as int, (before.len() + word.len()) as int) =~= word);
        assert(occurs_at(text, word, before.len() as int));
    }
    if occurs_in(text, word) {
        let at = choose|at: int| occurs_at(text, word, at);
        let before = text.take(at);
        let after = text.skip(at + word.len());
        assert(text =~= before + word + after);
    }
}

/// A kept path begins with a slash. Behind that it neither begins nor ends with one, so it
/// is the root or has a first component.
pub proof fn law_kept_path_shape(path: Seq<char>)
    ensures
        normalized_path(path).len() > 0,
        normalized_path(path)[0] == '/',
        normalized_path(path).len() > 1 ==> normalized_path(path)[1] != '/'
            && normalized_path(path).last() != '/',
{
    lemma_trim_ends_bare(trim_ends(path, CharClass::WhiteSpace), CharClass::Slash);
}

/// A kept path stays as it is when it is normalized again, unless it ends in white space.
pub proof fn law_kept_path_is_kept(path: Seq<char>)
    requires
        !CharClass::WhiteSpace.has_char(normalized_path(path).last()),
    ensures
        normalized_path(normalized_path(path)) == normalized_path(path),
{
    let kept = normalized_path(path);
    let body = trim_ends(trim_ends(path, CharClass::WhiteSpace), CharClass::Slash);
    lemma_trim_ends_bare(trim_ends(path, CharClass::WhiteSpace), CharClass::Slash);
    lemma_trim_ends_of_bare(kept, CharClass::WhiteSpace);
    lemma_trim_ends_of_wrapped(seq!['/'], body, Seq::empty(), CharClass::Slash);
    assert(seq!['/'] + body + Seq::<char>::empty() =~= kept);
    lemma_trim_ends_of_bare(body, CharClass::Slash);
}

/// White space around a path does not matter.
pub proof fn law_white_space_around_is_dropped(before: Seq<char>, path: Seq<char>, after: Seq<char>)
    requires
        all_of(before, CharClass::WhiteSpace),
        all_of(after, CharClass::WhiteSpace),
    ensures
        normalized_path(before + path + after) == normalized_path(path),
        normalized_ready(Some(before + path + after)) == normalized_ready(Some(path)),
{
    lemma_trim_ends_of_wrapped(before, path, after, CharClass::WhiteSpace);
}

/// How many slashes stand at the ends of a path does not matter, where no white space does.
pub proof fn law_slashes_around_are_dropped(before: Seq<char>, path: Seq<char>, after: Seq<char>)
    requires
        all_of(before, CharClass::Slash),
        all_of(after, CharClass::Slash),
        bare_of(path, CharClass::WhiteSpace),
    ensures
        normalized_path(before + path + after) == normalized_path(path),
{
    let whole = before + path + after;
    if whole.len() > 0 {
        if before.len() > 0 {
            assert(whole.first() == before[0]);
        } else if path.len() > 0 {
            assert(whole.first() == path.first());
        } else {
            assert(whole.first() == after[0]);
        }
        if after.len() > 0 {
            assert(whole.last() == after[after.len() - 1]);
        } else if path.len() > 0 {
            assert(whole.last() == path.last());
        } else {
            assert(whole.last() == before[before.len() - 1]);
        }
    }
    lemma_trim_ends_of_bare(whole, CharClass::WhiteSpace);
    lemma_trim_ends_of_bare(path, CharClass::WhiteSpace);
    lemma_trim_ends_of_wrapped(before, path, after, CharClass::Slash);
}

/// A ready path is kept in the form of a source path.
pub proof fn law_ready_path_is_kept_as_source_path(path: Seq<char>)
    ensures
        normalized_ready(Some(path)) matches Some(kept) ==> kept == normalized_path(path),
{
}

/// The bytes of a text begin with a slash only where the text does.
proof fn lemma_first_slash(text: Seq<char>)
    ensures
        text.len() == 0 ==> encode_utf8(text).len() == 0,
        text.len() > 0 ==> encode_utf8(text).len() > 0,
        text.len() > 0 && text[0] != '/' ==> encode_utf8(text)[0] != SEPARATOR,
{
    if text.len() > 0 {
        encode_utf8_first_scalar(text);
        let first = encode_utf8(text)[0];
        if first == SEPARATOR {
            assert(0x2fu8 & 0x7F == 0x2f) by (bit_vector);
            assert(is_leading_byte_width_1(first));
            assert(text[0] as u32 == 0x2f);
            char_u32_cast(text[0], 0x2f);
            char_u32_cast('/', 0x2f);
        }
    }
}

/// A name that is not absolute is found below the path that it is joined to.
pub proof fn law_join_stays_below(base: Seq<u8>, name: Seq<u8>)
    requires
        name.len() > 0 ==> name[0] != SEPARATOR,
    ensures
        base.is_prefix_of(joined(base, name)),
        joined(base, name).skip(joined(base, name).len() - name.len()) == name,
{
    assert(joined(base, name).take(base.len() as int) =~= base);
    assert(joined(base, name).skip(joined(base, name).len() - name.len()) =~= name);
}

/// Whether `path` is `name` in the directory `dir`: the two with one separator between them,
/// which is left out where there is no directory or where that ends with it already.
pub open spec fn lies_in(path: Seq<u8>, dir: Seq<u8>, name: Seq<u8>) -> bool {
    if dir.len() > 0 && dir.last() != SEPARATOR {
        path.len() == dir.len() + 1 + name.len() && dir.is_prefix_of(path) && name.is_suffix_of(path)
            && path[dir.len() as int] == SEPARATOR
    } else {
        path.len() == dir.len() + name.len() && dir.is_prefix_of(path) && name.is_suffix_of(path)
    }
}

/// A name that is not absolute is joined to a path with one separator between the two.
pub proof fn law_joined_name_lies_in_the_directory(base: Seq<u8>, name: Seq<u8>)
    requires
        name.len() > 0 ==> name[0] != SEPARATOR,
    ensures
        lies_in(joined(base, name), base, name),
{
    let path = joined(base, name);
    assert(path.take(base.len() as int) =~= base);
    assert(path.skip(path.len() - name.len()) =~= name);
}

/// An absolute name takes the place of the path that it is joined to.
pub proof fn law_absolute_name_replaces(base: Seq<u8>, name: Seq<u8>)
    requires
        name.len() > 0,
        name[0] == SEPARATOR,
    ensures
        joined(base, name) == name,
{
}

/// A repository path is looked for below the mountpoint, however it is written.
proof fn lemma_below_mountpoint(mountpoint: Seq<u8>, path: Seq<char>)
    ensures
        mountpoint.is_prefix_of(below(mountpoint, path)),
{
    let name = trim_front(path, CharClass::Slash);
    lemma_trim_front(path, CharClass::Slash);
    lemma_first_slash(name);
    law_join_stays_below(mountpoint, encode_utf8(name));
}

/// The probe looks for the ready path below the mountpoint, however the path is written.
pub proof fn law_ready_target_is_below_mountpoint(mountpoint: Seq<u8>, ready_path: Option<Seq<char>>)
    ensures
        ready_target(mountpoint, ready_path) matches Some(target) ==> mountpoint.is_prefix_of(
            target,
        ),
        kept_target(mountpoint, ready_path) matches Some(target) ==> mountpoint.is_prefix_of(
            target,
        ),
{
    if let Some(path) = normalized_ready(ready_path) {
        lemma_below_mountpoint(mountpoint, path);
    }
    if let Some(path) = ready_path {
        lemma_below_mountpoint(mountpoint, path);
    }
}

/// The path that the probe of a mount looks for below the mountpoint is the one that the
/// Dicfuse is to have ready, whatever the request names; where that is the root, the probe is
/// content with the mountpoint itself.
pub proof fn law_probe_looks_for_the_awaited_path(
    mountpoint: Seq<u8>,
    ready_path: Option<Seq<char>>,
)
    ensures
        ({
            let awaited = store_ready_path(normalized_ready(ready_path));
            &&& awaited.len() > 0 && awaited[0] == '/'
            &&& kept_target(mountpoint, normalized_ready(ready_path)) == (if awaited == seq!['/'] {
                None
            } else {
                Some(joined(mountpoint, encode_utf8(awaited.drop_first())))
            })
        }),
{
    if let Some(kept) = normalized_ready(ready_path) {
        law_kept_path_shape(ready_path->0);
        if kept != seq!['/'] {
            if kept.len() == 1 {
                assert(kept =~= seq!['/']);
            }
            let body = kept.drop_first();
            assert(body.first() == kept[1]);
            assert(trim_front(body, CharClass::Slash) == body);
            assert(trim_front(kept, CharClass::Slash) == body);
        }
    }
}

/// A probe for a ready path as a request writes it looks for the path that a mount on that
/// request looks for. A path of several slashes and nothing else is the exception: there the
/// mount is content with the mountpoint, and the probe looks at the mountpoint once more.
pub proof fn law_probes_look_for_the_same_path(mountpoint: Seq<u8>, ready_path: Option<Seq<char>>)
    ensures
        normalized_ready(ready_path) != Some(seq!['/']) ==> ready_target(mountpoint, ready_path)
            == kept_target(mountpoint, normalized_ready(ready_path)),
        normalized_ready(ready_path) == Some(seq!['/']) ==> ready_target(mountpoint, ready_path)
            == Some(joined(mountpoint, Seq::empty())),
{
    if normalized_ready(ready_path) == Some(seq!['/']) {
        reveal_with_fuel(trim_front, 2);
        assert(seq!['/'].drop_first() =~= Seq::<char>::empty());
        lemma_first_slash(Seq::empty());
        assert(encode_utf8(Seq::<char>::empty()) =~= Seq::empty());
    }
}

/// A layer lies in the directory of its name right below the root of such layers.
pub proof fn law_layer_is_below_its_root(root: Seq<u8>, id: Seq<char>)
    requires
        is_random_uuid(id),
    ensures
        root.is_prefix_of(joined(root, encode_utf8(id))),
        joined(root, encode_utf8(id)).skip(root.len() as int) == (if root.len() == 0 || root.last()
            == SEPARATOR {
            encode_utf8(id)
        } else {
            seq![SEPARATOR] + encode_utf8(id)
        }),
        !encode_utf8(id).contains(SEPARATOR),
{
    assert(is_ascii_chars(id)) by {
        assert forall|i: int| 0 <= i < id.len() implies '\0' <= #[trigger] id[i] <= '\u{7f}' by {}
    }
    is_ascii_chars_encode_utf8(id);
    lemma_first_slash(id);
    law_join_stays_below(root, encode_utf8(id));
    assert forall|i: int| 0 <= i < encode_utf8(id).len() implies encode_utf8(id)[i] != SEPARATOR by {
        assert(id[i] as u8 == encode_utf8(id)[i]);
        assert(id[i] != '/');
    }
    let dir = joined(root, encode_utf8(id));
    if root.len() == 0 || root.last() == SEPARATOR {
        assert(dir.skip(root.len() as int) =~= encode_utf8(id));
    } else {
        assert(dir.skip(root.len() as int) =~= seq![SEPARATOR] + encode_utf8(id));
    }
}

/// Layers with different identifiers lie in different directories.
pub proof fn law_layers_do_not_share_directories(root: Seq<u8>, a: Seq<char>, b: Seq<char>)
    requires
        is_random_uuid(a),
        is_random_uuid(b),
        a != b,
    ensures
        joined(root, encode_utf8(a)) != joined(root, encode_utf8(b)),
{
    law_layer_is_below_its_root(root, a);
    law_layer_is_below_its_root(root, b);
    encode_utf8_decode_utf8(a);
    encode_utf8_decode_utf8(b);
    if joined(root, encode_utf8(a)) == joined(root, encode_utf8(b)) {
        lemma_first_slash(a);
        lemma_first_slash(b);
        law_join_stays_below(root, encode_utf8(a));
        law_join_stays_below(root, encode_utf8(b));
    }
}

/// Leaving the last component out leaves the beginning of the path.
proof fn lemma_without_last_is_prefix(path: Seq<u8>, lead: nat)
    requires
        lead < path.len(),
    ensures
        without_last(path, lead).is_prefix_of(path),
        lead <= without_last(path, lead).len() < path.len(),
{
    lemma_last_start_bounds(path, lead);
}

/// Leaving blank components out leaves the beginning of the path.
proof fn lemma_without_blanks_is_prefix(path: Seq<u8>, lead: nat)
    requires
        lead <= path.len(),
    ensures
        without_blanks(path, lead).is_prefix_of(path),
        lead <= without_blanks(path, lead).len(),
    decreases path.len(),
{
    if lead < path.len() {
        lemma_without_last_is_prefix(path, lead);
        lemma_without_blanks_is_prefix(without_last(path, lead), lead);
        let kept = without_blanks(without_last(path, lead), lead);
        assert(without_last(path, lead).take(kept.len() as int) =~= path.take(kept.len() as int));
    }
}

/// A relative path that does not start at a dot keeps its first component.
proof fn lemma_first_component_stays(path: Seq<u8>)
    requires
        path.len() > 0,
        path[0] != SEPARATOR,
        !starts_at_dot(path),
    ensures
        without_blanks(path, 0).len() > 0,
    decreases path.len(),
{
    lemma_last_start_bounds(path, 0);
    if last_is_blank(path, 0) {
        lemma_first_component_stays(without_last(path, 0));
    }
}

/// The directory of a path is a beginning of that path, and not all of it. Only the empty
/// path and the ways to write the root have none.
pub proof fn law_parent_is_above(path: Seq<u8>)
    ensures
        parent_of(path) matches Some(parent) ==> parent.is_prefix_of(path) && parent.len()
            < path.len(),
        parent_of(path) is None <==> path.len() == 0 || (path[0] == SEPARATOR && without_blanks(
            path,
            1,
        ) == seq![SEPARATOR]),
{
    let lead = lead_len(path);
    let named = without_blanks(path, lead);
    if path.len() > 0 {
        lemma_without_blanks_is_prefix(path, lead);
        if named.len() > lead {
            lemma_without_last_is_prefix(named, lead);
            lemma_without_blanks_is_prefix(without_last(named, lead), lead);
            let parent = without_blanks(without_last(named, lead), lead);
            assert(path.take(parent.len() as int) =~= parent);
        } else if path[0] == SEPARATOR {
            assert(named =~= seq![SEPARATOR]);
        } else if !starts_at_dot(path) {
            lemma_first_component_stays(path);
        }
    }
}

/// Whether `name` can be the name of a file: it is not empty, has no separator in it, and is
/// not the dot that stands for the directory itself.
pub open spec fn is_plain_name(name: Seq<u8>) -> bool {
    &&& name.len() > 0
    &&& !name.contains(SEPARATOR)
    &&& name != seq![DOT]
}

/// Whether a path ends in a component that says something.
pub open spec fn ends_in_name(path: Seq<u8>) -> bool {
    &&& path.len() > 0
    &&& path.last() != SEPARATOR
    &&& !(path.len() > 1 && path.last() == DOT && path[path.len() - 2] == SEPARATOR)
}

/// A name without separators begins where it was put.
proof fn lemma_last_start_of_name(dir: Seq<u8>, name: Seq<u8>, lead: nat)
    requires
        lead <= dir.len(),
        dir.len() == lead || dir.last() == SEPARATOR,
        !name.contains(SEPARATOR),
    ensures
        last_start(dir + name, lead) == dir.len(),
    decreases name.len(),
{
    if name.len() > 0 {
        assert(name.contains(name[name.len() - 1]));
        assert((dir + name).drop_last() =~= dir + name.drop_last());
        assert(!name.drop_last().contains(SEPARATOR)) by {
            if name.drop_last().contains(SEPARATOR) {
                let i = choose|i: int|
                    0 <= i < name.drop_last().len() && name.drop_last()[i] == SEPARATOR;
                assert(name[i] == SEPARATOR);
            }
        }
        lemma_last_start_of_name(dir, name.drop_last(), lead);
    } else {
        assert(dir + name =~= dir);
    }
}

/// A name in a directory is the last component, and it is no blank one.
proof fn lemma_parent_of_named(dir: Seq<u8>, name: Seq<u8>)
    requires
        dir.len() > 0,
        is_plain_name(name),
    ensures
        parent_of(dir + seq![SEPARATOR] + name) == Some(
            without_blanks(dir, lead_len(dir + seq![SEPARATOR])),
        ),
        lead_len(dir + seq![SEPARATOR]) <= dir.len(),
{
    let base = dir + seq![SEPARATOR];
    let path = base + name;
    let lead = lead_len(path);
    assert(path[0] == dir[0]);
    assert(base[0] == dir[0]);
    assert(path[1] == base[1]);
    assert(lead == lead_len(base));
    lemma_last_start_of_name(base, name, lead);
    if path[base.len() as int] == DOT && name.len() == 1 {
        assert(name =~= seq![DOT]);
    }
    assert(without_last(path, lead) =~= dir);
}

/// The parent of a name in a directory is that directory, also where it is the root or where
/// the name stands alone.
pub proof fn law_parent_of_a_name_is_its_directory(dir: Seq<u8>, name: Seq<u8>)
    requires
        is_plain_name(name),
    ensures
        ends_in_name(dir) ==> parent_of(dir + seq![SEPARATOR] + name) == Some(dir),
        parent_of(seq![SEPARATOR] + name) == Some(seq![SEPARATOR]),
        parent_of(name) == Some(Seq::<u8>::empty()),
{
    assert(name.contains(name[0]));
    if name.len() == 1 && name[0] == DOT {
        assert(name =~= seq![DOT]);
    }
    if name.len() > 1 {
        assert(name.contains(name[1]));
    }
    if ends_in_name(dir) {
        lemma_parent_of_named(dir, name);
        let base = dir + seq![SEPARATOR];
        let lead = lead_len(base);
        assert(base[0] == dir[0]);
        if dir.len() > lead {
            lemma_last_start_bounds(dir, lead);
            let at = last_start(dir, lead);
            if at + 1 == dir.len() && dir[at as int] == DOT && at == lead && lead == 1 {
                assert(base[1] == dir[1]);
            }
            if dir.len() == 1 {
                assert(base[1] == SEPARATOR);
            }
        }
    }
    let rooted = seq![SEPARATOR] + name;
    lemma_last_start_of_name(seq![SEPARATOR], name, 1);
    assert(rooted[1] == name[0]);
    assert(without_last(rooted, 1) =~= seq![SEPARATOR]);
    lemma_last_start_of_name(Seq::empty(), name, 0);
    assert(Seq::<u8>::empty() + name =~= name);
    assert(without_last(name, 0) =~= Seq::empty());
}

/// Separators and single dots at the end of a path, or doubled before its last name, make no
/// difference to its parent.
pub proof fn law_blank_components_do_not_matter(path: Seq<u8>, name: Seq<u8>)
    requires
        path.len() > 0,
        is_plain_name(name),
    ensures
        parent_of(path + seq![SEPARATOR]) == parent_of(path),
        parent_of(path + seq![SEPARATOR, DOT]) == parent_of(path),
        parent_of(path + seq![SEPARATOR] + seq![SEPARATOR] + name) == parent_of(
            path + seq![SEPARATOR] + name,
        ),
        parent_of(path + seq![SEPARATOR, DOT] + seq![SEPARATOR] + name) == parent_of(
            path + seq![SEPARATOR] + name,
        ),
        parent_of(seq![SEPARATOR]) is None,
        parent_of(Seq::empty()) is None,
        parent_of(seq![DOT]) == Some(Seq::<u8>::empty()),
{
    let slashed = path + seq![SEPARATOR];
    let dotted = path + seq![SEPARATOR, DOT];
    let lead = lead_len(path);
    assert(slashed[0] == path[0] && dotted[0] == path[0]);
    assert(slashed[1] == dotted[1]);
    if path.len() > 1 {
        assert(slashed[1] == path[1]);
    }
    assert(lead_len(slashed) == lead && lead_len(dotted) == lead);
    assert(slashed.take(path.len() as int) =~= path);
    assert(without_last(slashed, lead) =~= path);
    assert(dotted =~= slashed + seq![DOT]);
    assert(!seq![DOT].contains(SEPARATOR));
    lemma_last_start_of_name(slashed, seq![DOT], lead);
    assert(without_last(dotted, lead) =~= path);
    lemma_parent_of_named(path, name);
    lemma_parent_of_named(slashed, name);
    lemma_parent_of_named(dotted, name);
    assert((slashed + seq![SEPARATOR])[0] == path[0]);
    assert((slashed + seq![SEPARATOR])[1] == slashed[1]);
    assert((dotted + seq![SEPARATOR])[0] == path[0]);
    assert((dotted + seq![SEPARATOR])[1] == slashed[1]);
}

} // verus!
