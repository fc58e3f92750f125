//! The lexical policy for guest paths.
use vstd::prelude::*;

use crate::error::FsError;
use crate::text::{byte_len, chars_of, concat3, contains_char, join, join_texts, same_text, split};
use crate::text::{split_text, texts, utf8_len};

verus! {

/// Maximum accepted UTF-8 byte length for a guest-relative path.
pub const MAX_GUEST_PATH_BYTES: usize = 4096;

/// Maximum number of normalized components in a guest-relative path.
pub const MAX_GUEST_PATH_COMPONENTS: usize = 256;

/// What a guest-relative path means: the names to walk through, and whether
/// the last of them has to be a directory.
#[verifier::ext_equal]
pub struct PathView {
    pub components: Seq<Seq<char>>,
    pub requires_directory: bool,
}

/// Whether a piece between two slashes names nothing: it is empty or `.`.
pub open spec fn names_nothing(piece: Seq<char>) -> bool {
    piece.len() == 0 || piece == "."@
}

/// The pieces that name something, in order.
pub open spec fn named(pieces: Seq<Seq<char>>) -> Seq<Seq<char>>
    decreases pieces.len(),
{
    if pieces.len() == 0 {
        Seq::empty()
    } else if names_nothing(pieces.last()) {
        named(pieces.drop_last())
    } else {
        named(pieces.drop_last()).push(pieces.last())
    }
}

/// The last piece that is not empty, where there is one.
pub open spec fn last_piece(pieces: Seq<Seq<char>>) -> Option<Seq<char>>
    decreases pieces.len(),
{
    if pieces.len() == 0 {
        None
    } else if pieces.last().len() > 0 {
        Some(pieces.last())
    } else {
        last_piece(pieces.drop_last())
    }
}

/// Whether a character is an ASCII letter.
pub open spec fn is_ascii_letter(c: char) -> bool {
    'a' <= c <= 'z' || 'A' <= c <= 'Z'
}

/// Whether a component begins like a Windows drive (`C:`).
pub open spec fn drive_prefix(component: Seq<char>) -> bool {
    component.len() >= 2 && is_ascii_letter(component[0]) && component[1] == ':'
}

/// The normalized form of a path: its components with one slash between
/// neighbours.
pub open spec fn normal_form(components: Seq<Seq<char>>) -> Seq<char> {
    join(components, "/"@)
}

/// Whether a path is short enough, and shallow enough, to be used.
pub open spec fn within_bounds(components: Seq<Seq<char>>) -> bool {
    &&& components.len() <= MAX_GUEST_PATH_COMPONENTS
    &&& utf8_len(normal_form(components)) <= MAX_GUEST_PATH_BYTES
}

/// Which paths a guest may use. A path is relative, holds no backslash, no NUL
/// and no parent component, names something, and keeps to the bounds.
pub open spec fn acceptable(path: Seq<char>) -> bool {
    let pieces = split(path, '/');
    let components = named(pieces);
    &&& path.len() > 0
    &&& utf8_len(path) <= MAX_GUEST_PATH_BYTES
    &&& path[0] != '/'
    &&& !path.contains('\\')
    &&& !path.contains('\0')
    &&& !pieces.contains(".."@)
    &&& components.len() > 0
    &&& !drive_prefix(components[0])
    &&& within_bounds(components)
}

/// What an acceptable path means.
pub open spec fn parsed(path: Seq<char>) -> Option<PathView> {
    if acceptable(path) {
        Some(
            PathView {
                components: named(split(path, '/')),
                requires_directory: path.last() == '/' || last_piece(split(path, '/')) == Some("."@),
            },
        )
    } else {
        None
    }
}

/// The path that leads to `child` from the directory at `parent`.
pub open spec fn joined(parent: PathView, child: PathView) -> Option<PathView> {
    let components = parent.components + child.components;
    if within_bounds(components) {
        Some(PathView { components, requires_directory: child.requires_directory })
    } else {
        None
    }
}

/// Whether `path` is `ancestor` itself or lies below it.
pub open spec fn lies_within(path: PathView, ancestor: PathView) -> bool {
    &&& ancestor.components.len() <= path.components.len()
    &&& path.components.take(ancestor.components.len() as int) == ancestor.components
}

/// Whether one component is safe: it names exactly one entry of a directory.
pub open spec fn safe_component(component: Seq<char>) -> bool {
    &&& component.len() > 0
    &&& component != "."@
    &&& component != ".."@
    &&& !component.contains('/')
    &&& !component.contains('\\')
    &&& !component.contains('\0')
}

/// Whether every component is safe.
pub open spec fn all_safe(components: Seq<Seq<char>>) -> bool {
    forall|i: int| 0 <= i < components.len() ==> #[trigger] safe_component(components[i])
}

impl PathView {
    /// The path of a preopened directory itself.
    pub open spec fn root() -> PathView {
        PathView { components: Seq::empty(), requires_directory: true }
    }

    /// Every path that is ever handed to the host is safe and within bounds.
    pub open spec fn safe(self) -> bool {
        &&& all_safe(self.components)
        &&& within_bounds(self.components)
    }
}

/// A validated, normalized path relative to a filesystem capability.
///
/// Values can only be constructed by the lexical policy below or as the
/// internal empty path representing a preopen root. Authorization is still
/// performed by `cap-std`; this type prevents unchecked guest strings from
/// reaching filesystem operations.
#[derive(Debug, PartialEq, Eq)]
pub struct GuestRelativePath {
    components: Vec<String>,
    normalized: String,
    requires_directory: bool,
}

impl View for GuestRelativePath {
    type V = PathView;

    closed spec fn view(&self) -> PathView {
        PathView {
            components: texts(self.components@),
            requires_directory: self.requires_directory,
        }
    }
}

impl Clone for GuestRelativePath {
    fn clone(&self) -> (r: GuestRelativePath)
        ensures
            r@ == self@,
            self.wf() ==> r.wf(),
    {
        let mut components: Vec<String> = Vec::new();
        let mut i: usize = 0;
        while i < self.components.len()
            invariant
                0 <= i <= self.components@.len(),
                components@ == self.components@.take(i as int),
            decreases self.components@.len() - i,
        {
            components.push(self.components[i].clone());
            i += 1;
        }
        assert(components@ =~= self.components@);
        GuestRelativePath {
            components,
            normalized: self.normalized.clone(),
            requires_directory: self.requires_directory,
        }
    }
}

impl GuestRelativePath {
    /// The stored text is the normalized form of a safe path.
    pub closed spec fn wf(self) -> bool {
        &&& self@.safe()
        &&& self.normalized@ == normal_form(self@.components)
    }

    /// A well-formed path is safe.
    pub proof fn wf_is_safe(self)
        requires
            self.wf(),
        ensures
            self@.safe(),
    {
    }

    /// The path of a preopened directory itself.
    pub fn root() -> (r: GuestRelativePath)
        ensures
            r.wf(),
            r@ == PathView::root(),
    {
        let r = GuestRelativePath {
            components: Vec::new(),
            normalized: String::new(),
            requires_directory: true,
        };
        proof {
            assert(r@.components =~= Seq::empty());
            assert(normal_form(r@.components) =~= Seq::empty());
        }
        r
    }

    /// Validates and normalizes a path that a guest handed over.
    pub fn parse(path: &str) -> (r: Result<GuestRelativePath, FsError>)
        ensures
            match parsed(path@) {
                Some(view) => r matches Ok(p) && p.wf() && p@ == view,
                None => r matches Err(e) && e@ == FsError::<Seq<char>>::InvalidPath,
            },
    {
        let chars = chars_of(path);
        if chars.len() == 0 || byte_len(path) > MAX_GUEST_PATH_BYTES || chars[0] == '/'
            || contains_char(path, '\\') || contains_char(path, '\0') {
            return Err(FsError::InvalidPath);
        }
        let pieces = split_text(path, '/');
        let ghost all = split(path@, '/');
        let mut components: Vec<String> = Vec::new();
        let mut ends_in_dot = false;
        let mut i: usize = 0;
        assert(all.take(0) =~= Seq::<Seq<char>>::empty());
        assert(texts(components@) =~= Seq::<Seq<char>>::empty());
        while i < pieces.len()
            invariant
                0 <= i <= pieces@.len(),
                texts(pieces@) == all,
                all == split(path@, '/'),
                texts(components@) == named(all.take(i as int)),
                components@.len() <= MAX_GUEST_PATH_COMPONENTS,
                components@.len() > 0 ==> !drive_prefix(texts(components@)[0]),
                ends_in_dot == (last_piece(all.take(i as int)) == Some("."@)),
                forall|j: int| 0 <= j < i ==> all[j] != ".."@,
            decreases pieces@.len() - i,
        {
            let piece = pieces[i].as_str();
            let ghost seen = all.take(i as int);
            proof {
                assert(all[i as int] == piece@);
                assert(all.take(i + 1).drop_last() =~= seen);
                assert(all.take(i + 1).last() == piece@);
                reveal_strlit(".");
                reveal_strlit("..");
            }
            if piece.is_empty() {
                i += 1;
                continue;
            }
            if same_text(piece, ".") {
                ends_in_dot = true;
                i += 1;
                continue;
            }
            ends_in_dot = false;
            if same_text(piece, "..") {
                assert(all[i as int] == ".."@);
                return Err(FsError::InvalidPath);
            }
            // Reject Windows drive prefixes on every platform, so that the
            // guest path language has the same meaning everywhere.
            if components.len() == 0 && GuestRelativePath::has_windows_drive_prefix(piece) {
                proof {
                    lemma_named_prefix(all, i + 1);
                    assert(named(all.take(i + 1))[0] == piece@);
                }
                return Err(FsError::InvalidPath);
            }
            let ghost before = texts(components@);
            components.push(piece.to_owned());
            assert(texts(components@) =~= before.push(piece@));
            if components.len() > MAX_GUEST_PATH_COMPONENTS {
                proof {
                    lemma_named_prefix(all, i + 1);
                }
                return Err(FsError::InvalidPath);
            }
            i += 1;
        }
        assert(all.take(i as int) =~= all);
        if components.len() == 0 {
            return Err(FsError::InvalidPath);
        }
        let normalized = join_texts(&components, "/");
        if byte_len(normalized.as_str()) > MAX_GUEST_PATH_BYTES {
            return Err(FsError::InvalidPath);
        }
        let requires_directory = chars[chars.len() - 1] == '/' || ends_in_dot;
        let r = GuestRelativePath { components, normalized, requires_directory };
        proof {
            assert(!all.contains(".."@));
            lemma_named_are_safe(path@, all);
            assert(r@.components == named(all));
        }
        Ok(r)
    }

    /// Whether a component begins like a Windows drive.
    pub fn has_windows_drive_prefix(component: &str) -> (r: bool)
        ensures
            r == drive_prefix(component@),
    {
        let chars = chars_of(component);
        chars.len() >= 2 && ('a' <= chars[0] && chars[0] <= 'z' || 'A' <= chars[0] && chars[0]
            <= 'Z') && chars[1] == ':'
    }

    /// The path that leads to `child` from the directory at this path.
    pub fn join(&self, child: &GuestRelativePath) -> (r: Result<GuestRelativePath, FsError>)
        requires
            self.wf(),
            child.wf(),
            child@.components.len() > 0,
        ensures
            match joined(self@, child@) {
                Some(view) => r matches Ok(p) && p.wf() && p@ == view,
                None => r matches Err(e) && e@ == FsError::<Seq<char>>::InvalidPath,
            },
    {
        let ghost both = self@.components + child@.components;
        if self.components.len() + child.components.len() > MAX_GUEST_PATH_COMPONENTS {
            return Err(FsError::InvalidPath);
        }
        let normalized = if self.components.len() == 0 {
            assert(both =~= child@.components);
            child.normalized.clone()
        } else {
            proof {
                lemma_join_concat(self@.components, child@.components, "/"@);
            }
            concat3(self.normalized.as_str(), "/", child.normalized.as_str())
        };
        if byte_len(normalized.as_str()) > MAX_GUEST_PATH_BYTES {
            return Err(FsError::InvalidPath);
        }
        let mut components = self.clone().components;
        let mut tail = child.clone().components;
        let ghost head_view = components@;
        let ghost tail_view = tail@;
        components.append(&mut tail);
        let r = GuestRelativePath {
            components,
            normalized,
            requires_directory: child.requires_directory,
        };
        proof {
            assert(texts(components@) =~= texts(head_view) + texts(tail_view));
            assert(r@.components =~= both);
            assert forall|i: int| 0 <= i < both.len() implies #[trigger] safe_component(both[i]) by {
                if i < self@.components.len() {
                    assert(safe_component(self@.components[i]));
                } else {
                    assert(safe_component(child@.components[i - self@.components.len()]));
                }
            }
        }
        Ok(r)
    }

    /// The normalized text of this path.
    pub fn as_path(&self) -> (r: &str)
        requires
            self.wf(),
        ensures
            r@ == normal_form(self@.components),
    {
        self.normalized.as_str()
    }

    /// Whether the path has to name a directory.
    pub fn requires_directory(&self) -> (r: bool)
        ensures
            r == self@.requires_directory,
    {
        self.requires_directory
    }

    /// Whether this path is `ancestor` or lies below it.
    pub fn is_within(&self, ancestor: &GuestRelativePath) -> (r: bool)
        ensures
            r == lies_within(self@, ancestor@),
    {
        if ancestor.components.len() > self.components.len() {
            return false;
        }
        let mut i: usize = 0;
        while i < ancestor.components.len()
            invariant
                0 <= i <= ancestor.components@.len() <= self.components@.len(),
                forall|j: int|
                    0 <= j < i ==> self@.components[j] == #[trigger] ancestor@.components[j],
            decreases ancestor.components@.len() - i,
        {
            if !same_text(self.components[i].as_str(), ancestor.components[i].as_str()) {
                proof {
                    assert(self@.components.take(ancestor@.components.len() as int)[i as int]
                        != ancestor@.components[i as int]);
                }
                return false;
            }
            i += 1;
        }
        assert(self@.components.take(ancestor@.components.len() as int) =~= ancestor@.components);
        true
    }

    /// Whether two paths have the same components.
    pub fn same_components(&self, other: &GuestRelativePath) -> (r: bool)
        ensures
            r == (self@.components == other@.components),
    {
        let r = self.components.len() == other.components.len() && self.is_within(other);
        proof {
            if self@.components.len() == other@.components.len() {
                assert(self@.components.take(other@.components.len() as int) =~= self@.components);
            }
        }
        r
    }

    /// Whether the last component is `name`.
    pub fn is_named(&self, name: &str) -> (r: bool)
        ensures
            r == (self@.components.len() > 0 && self@.components.last() == name@),
    {
        if self.components.len() == 0 {
            false
        } else {
            assert(self@.components.last() == self.components@.last()@);
            same_text(self.components[self.components.len() - 1].as_str(), name)
        }
    }
}

/// Dropping pieces from the end never changes the components before them.
proof fn lemma_named_prefix(pieces: Seq<Seq<char>>, n: int)
    requires
        0 <= n <= pieces.len(),
    ensures
        named(pieces.take(n)).len() <= named(pieces).len(),
        named(pieces).take(named(pieces.take(n)).len() as int) == named(pieces.take(n)),
    decreases pieces.len(),
{
    if n == pieces.len() {
        assert(pieces.take(n) =~= pieces);
        assert(named(pieces).take(named(pieces).len() as int) =~= named(pieces));
    } else {
        lemma_named_prefix(pieces.drop_last(), n);
        assert(pieces.drop_last().take(n) =~= pieces.take(n));
        assert(named(pieces).take(named(pieces.take(n)).len() as int) =~= named(
            pieces.drop_last(),
        ).take(named(pieces.take(n)).len() as int));
    }
}

/// A component is one of the pieces, and names something.
proof fn lemma_named_from_pieces(pieces: Seq<Seq<char>>, k: int)
    requires
        0 <= k < named(pieces).len(),
    ensures
        pieces.contains(named(pieces)[k]),
        !names_nothing(named(pieces)[k]),
    decreases pieces.len(),
{
    let front = pieces.drop_last();
    if k < named(front).len() {
        lemma_named_from_pieces(front, k);
        let i = choose|i: int| 0 <= i < front.len() && front[i] == named(front)[k];
        assert(pieces[i] == named(pieces)[k]);
    } else {
        assert(pieces[pieces.len() - 1] == named(pieces)[k]);
    }
}

/// Splitting yields at least one piece, none of which holds the separator,
/// and every character of a piece occurs in the text.
pub proof fn lemma_split_pieces(s: Seq<char>, sep: char)
    ensures
        split(s, sep).len() > 0,
        forall|i: int, j: int|
            0 <= i < split(s, sep).len() && 0 <= j < split(s, sep)[i].len() ==> {
                &&& #[trigger] split(s, sep)[i][j] != sep
                &&& s.contains(split(s, sep)[i][j])
            },
    decreases s.len(),
{
    if s.len() > 0 {
        let front = s.drop_last();
        lemma_split_pieces(front, sep);
        let before = split(front, sep);
        let after = split(s, sep);
        assert forall|i: int, j: int|
            0 <= i < after.len() && 0 <= j < after[i].len() implies #[trigger] after[i][j] != sep
            && s.contains(after[i][j]) by {
            if i < before.len() && j < before[i].len() {
                assert(after[i][j] == before[i][j]);
                let k = choose|k: int| 0 <= k < front.len() && front[k] == before[i][j];
                assert(s[k] == after[i][j]);
            } else {
                assert(after[i][j] == s.last());
                assert(s[s.len() - 1] == s.last());
            }
        }
    }
}

/// The components of a path without backslash, NUL and parent component are
/// safe.
proof fn lemma_named_are_safe(path: Seq<char>, pieces: Seq<Seq<char>>)
    requires
        pieces == split(path, '/'),
        !path.contains('\\'),
        !path.contains('\0'),
        !pieces.contains(".."@),
    ensures
        all_safe(named(pieces)),
{
    lemma_split_pieces(path, '/');
    assert forall|k: int| 0 <= k < named(pieces).len() implies #[trigger] safe_component(
        named(pieces)[k],
    ) by {
        lemma_named_from_pieces(pieces, k);
        let component = named(pieces)[k];
        let i = choose|i: int| 0 <= i < pieces.len() && pieces[i] == component;
        assert(forall|j: int| 0 <= j < component.len() ==> pieces[i][j] == #[trigger] component[j]);
    }
}

/// Joining two lists joins each of them and puts one separator in between.
pub proof fn lemma_join_concat(a: Seq<Seq<char>>, b: Seq<Seq<char>>, sep: Seq<char>)
    requires
        a.len() > 0,
        b.len() > 0,
    ensures
        join(a + b, sep) == join(a, sep) + sep + join(b, sep),
    decreases b.len(),
{
    assert((a + b).drop_last() =~= a + b.drop_last());
    assert((a + b).last() == b.last());
    if b.len() == 1 {
        assert(a + b.drop_last() =~= a);
    } else {
        lemma_join_concat(a, b.drop_last(), sep);
        assert(join(a + b, sep) =~= join(a, sep) + sep + join(b, sep));
    }
}

/// Splitting at a separator that stands between two texts splits each of them.
proof fn lemma_split_concat(a: Seq<char>, b: Seq<char>, sep: char)
    ensures
        split(a.push(sep) + b, sep) == split(a, sep) + split(b, sep),
    decreases b.len(),
{
    let whole = a.push(sep) + b;
    lemma_split_pieces(a, sep);
    lemma_split_pieces(b, sep);
    if b.len() == 0 {
        assert(whole =~= a.push(sep));
        assert(whole.drop_last() =~= a);
        assert(split(whole, sep) =~= split(a, sep) + split(b, sep));
    } else {
        assert(whole.drop_last() =~= a.push(sep) + b.drop_last());
        lemma_split_concat(a, b.drop_last(), sep);
        lemma_split_pieces(b.drop_last(), sep);
        assert(split(whole, sep) =~= split(a, sep) + split(b, sep));
    }
}

/// A text without the separator is its own only piece.
proof fn lemma_split_single(s: Seq<char>, sep: char)
    requires
        !s.contains(sep),
    ensures
        split(s, sep) == seq![s],
    decreases s.len(),
{
    if s.len() > 0 {
        assert forall|i: int| 0 <= i < s.drop_last().len() implies s.drop_last()[i] != sep by {
            assert(s[i] == s.drop_last()[i]);
        }
        lemma_split_single(s.drop_last(), sep);
        assert(s[s.len() - 1] == s.last());
        assert(split(s, sep) =~= seq![s]) by {
            assert(s.drop_last().push(s.last()) =~= s);
        }
    } else {
        assert(s =~= Seq::empty());
    }
}

/// Splitting undoes joining where no part holds the separator.
proof fn lemma_split_join(parts: Seq<Seq<char>>)
    requires
        parts.len() > 0,
        forall|i: int| 0 <= i < parts.len() ==> !#[trigger] parts[i].contains('/'),
    ensures
        split(normal_form(parts), '/') == parts,
    decreases parts.len(),
{
    reveal_strlit("/");
    if parts.len() == 1 {
        lemma_split_single(parts[0], '/');
        assert(seq![parts[0]] =~= parts);
    } else {
        let front = parts.drop_last();
        assert forall|i: int| 0 <= i < front.len() implies !#[trigger] front[i].contains('/') by {
            assert(front[i] == parts[i]);
        }
        lemma_split_join(front);
        let last = parts.last();
        assert(parts[parts.len() - 1] == last);
        lemma_split_single(last, '/');
        lemma_split_concat(normal_form(front), last, '/');
        assert(normal_form(parts) =~= normal_form(front).push('/') + last);
        assert(front + seq![last] =~= parts);
    }
}

/// Safe components all name something.
proof fn lemma_named_safe(components: Seq<Seq<char>>)
    requires
        all_safe(components),
    ensures
        named(components) == components,
    decreases components.len(),
{
    if components.len() > 0 {
        let front = components.drop_last();
        assert forall|i: int| 0 <= i < front.len() implies #[trigger] safe_component(front[i]) by {
            assert(safe_component(components[i]));
        }
        lemma_named_safe(front);
        assert(safe_component(components[components.len() - 1]));
        assert(front.push(components.last()) =~= components);
    } else {
        assert(named(components) =~= components);
    }
}

/// Where every component avoids a character, so does their normal form,
/// unless the character is the slash between them.
proof fn lemma_normal_form_avoids(components: Seq<Seq<char>>, c: char)
    requires
        c != '/',
        forall|i: int| 0 <= i < components.len() ==> !#[trigger] components[i].contains(c),
    ensures
        !normal_form(components).contains(c),
    decreases components.len(),
{
    reveal_strlit("/");
    if components.len() == 1 {
        assert(!components[0].contains(c));
    } else if components.len() > 1 {
        let front = components.drop_last();
        assert forall|i: int| 0 <= i < front.len() implies !#[trigger] front[i].contains(c) by {
            assert(front[i] == components[i]);
        }
        lemma_normal_form_avoids(front, c);
        let last = components.last();
        assert(!components[components.len() - 1].contains(c));
        let whole = normal_form(components);
        assert forall|k: int| 0 <= k < whole.len() implies whole[k] != c by {
            let n = normal_form(front).len();
            if k < n {
                assert(whole[k] == normal_form(front)[k]);
            } else if k > n {
                assert(whole[k] == last[k - n - 1]);
            }
        }
    }
}

/// What a guest path means is always safe: no component is empty, `.` or `..`,
/// none holds a slash, a backslash or a NUL, the first is no drive prefix, and
/// the bounds on length and depth are kept. An accepted path names something.
pub proof fn law_accepted_paths_are_safe(path: Seq<char>)
    ensures
        parsed(path) matches Some(view) ==> {
            &&& view.safe()
            &&& view.components.len() > 0
            &&& !drive_prefix(view.components[0])
        },
{
    if acceptable(path) {
        lemma_named_are_safe(path, split(path, '/'));
    }
}

/// No path with a parent component is accepted, wherever the component stands
/// and even where the path would lexically stay below its directory.
pub proof fn law_parent_components_are_rejected(before: Seq<char>, after: Seq<char>)
    ensures
        parsed(".."@) is None,
        parsed(before + "/.."@) is None,
        parsed("../"@ + after) is None,
        parsed(before + "/../"@ + after) is None,
{
    reveal_strlit("..");
    reveal_strlit("/..");
    reveal_strlit("../");
    reveal_strlit("/../");
    let dots = ".."@;
    assert(!dots.contains('/'));
    lemma_split_single(dots, '/');
    assert(split(dots, '/')[0] == dots);
    assert(split(dots, '/').contains(dots));
    lemma_split_concat(before, dots, '/');
    assert(before + "/.."@ =~= before.push('/') + dots);
    let tail = split(before, '/') + split(dots, '/');
    assert(tail[split(before, '/').len() as int] == dots);
    assert(tail.contains(dots));
    lemma_split_concat(dots, after, '/');
    assert("../"@ + after =~= dots.push('/') + after);
    let head = split(dots, '/') + split(after, '/');
    assert(head[0] == dots);
    assert(head.contains(dots));
    lemma_split_concat(before, "../"@ + after, '/');
    assert(before + "/../"@ + after =~= before.push('/') + ("../"@ + after));
    let whole = split(before, '/') + head;
    assert(whole[split(before, '/').len() as int] == dots);
    assert(whole.contains(dots));
}

/// No path that holds a backslash or a NUL is accepted.
pub proof fn law_backslash_and_nul_are_rejected(path: Seq<char>)
    ensures
        path.contains('\\') || path.contains('\0') ==> parsed(path) is None,
{
}

/// Absolute paths and the empty path are never accepted.
pub proof fn law_absolute_paths_are_rejected(path: Seq<char>)
    ensures
        path.len() == 0 || path[0] == '/' ==> parsed(path) is None,
{
}

/// Normalization is idempotent: the normalized form of an accepted path is
/// accepted, and means the same components.
pub proof fn law_normalization_is_idempotent(path: Seq<char>)
    ensures
        parsed(path) matches Some(view) ==> parsed(normal_form(view.components)) == Some(
            PathView { components: view.components, requires_directory: false },
        ),
{
    if acceptable(path) {
        law_accepted_paths_are_safe(path);
        law_safe_components_are_accepted(parsed(path)->0.components);
    }
}

/// Every path is accepted that is put together from components that each name
/// one entry, where it keeps to the bounds and does not begin like a drive; and
/// it means just those components.
pub proof fn law_safe_components_are_accepted(components: Seq<Seq<char>>)
    requires
        0 < components.len() <= 256,
        utf8_len(join(components, "/"@)) <= 4096,
        forall|i: int| 0 <= i < components.len() ==> #[trigger] safe_component(components[i]),
        !drive_prefix(components[0]),
    ensures
        parsed(join(components, "/"@)) == Some(PathView { components, requires_directory: false }),
{
    assert forall|i: int| 0 <= i < components.len() implies !#[trigger] components[i].contains(
        '/',
    ) by {
        assert(safe_component(components[i]));
    }
    lemma_split_join(components);
    lemma_named_safe(components);
    assert forall|i: int| 0 <= i < components.len() implies !#[trigger] components[i].contains(
        '\\',
    ) by {
        assert(safe_component(components[i]));
    }
    assert forall|i: int| 0 <= i < components.len() implies !#[trigger] components[i].contains(
        '\0',
    ) by {
        assert(safe_component(components[i]));
    }
    lemma_normal_form_avoids(components, '\\');
    lemma_normal_form_avoids(components, '\0');
    assert forall|i: int| 0 <= i < components.len() implies components[i] != ".."@ by {
        assert(safe_component(components[i]));
    }
    assert(safe_component(components[0]));
    assert(safe_component(components[components.len() - 1]));
    lemma_normal_form_ends(components);
    assert(last_piece(components) == Some(components.last()));
}

/// The normal form of a path begins and ends as its first and last component
/// do.
proof fn lemma_normal_form_ends(components: Seq<Seq<char>>)
    requires
        components.len() > 0,
        all_safe(components),
    ensures
        normal_form(components).len() > 0,
        normal_form(components)[0] != '/',
        normal_form(components).last() != '/',
    decreases components.len(),
{
    reveal_strlit("/");
    let last = components.last();
    assert(safe_component(components[components.len() - 1]));
    assert(last[last.len() - 1] == last.last());
    if components.len() == 1 {
        assert(last.contains(last[0]));
    } else {
        let front = components.drop_last();
        assert forall|i: int| 0 <= i < front.len() implies #[trigger] safe_component(front[i]) by {
            assert(safe_component(components[i]));
        }
        lemma_normal_form_ends(front);
        assert(normal_form(components)[0] == normal_form(front)[0]);
        assert(normal_form(components).last() == last.last());
    }
    assert(last.contains(last.last()));
}

/// A path below a directory stays below it: what `join` leads to lies within
/// the directory it started from.
pub proof fn law_join_stays_below(parent: PathView, child: PathView)
    ensures
        joined(parent, child) matches Some(path) ==> lies_within(path, parent),
{
    assert((parent.components + child.components).take(parent.components.len() as int)
        =~= parent.components);
}

/// Joining to the root of a mount changes nothing.
pub proof fn law_root_is_neutral(child: PathView)
    requires
        child.safe(),
    ensures
        joined(PathView::root(), child) == Some(child),
{
    assert(PathView::root().components + child.components =~= child.components);
}

/// Joining in two steps leads to the same place as joining at once.
pub proof fn law_join_is_associative(a: PathView, b: PathView, c: PathView)
    requires
        joined(a, b) is Some,
        joined(b, c) is Some,
    ensures
        joined(joined(a, b)->0, c) == joined(a, joined(b, c)->0),
{
    assert((a.components + b.components) + c.components =~= a.components + (b.components
        + c.components));
}

/// Lying within is a partial order on components: every path lies within
/// itself, and what lies within a descendant lies within its ancestors.
pub proof fn law_within_is_transitive(a: PathView, b: PathView, c: PathView)
    ensures
        lies_within(a, a),
        lies_within(a, b) && lies_within(b, c) ==> lies_within(a, c),
        lies_within(a, b) && lies_within(b, a) ==> a.components == b.components,
{
    assert(a.components.take(a.components.len() as int) =~= a.components);
    if lies_within(a, b) && lies_within(b, c) {
        assert(a.components.take(c.components.len() as int) =~= a.components.take(
            b.components.len() as int,
        ).take(c.components.len() as int));
    }
    if lies_within(a, b) && lies_within(b, a) {
        assert(a.components.take(b.components.len() as int) =~= a.components);
    }
}

/// Two safe paths have the same normalized text exactly where they have the
/// same components.
pub proof fn law_normal_form_identifies_the_path(a: PathView, b: PathView)
    requires
        a.safe(),
        b.safe(),
    ensures
        normal_form(a.components) == normal_form(b.components) <==> a.components == b.components,
{
    if normal_form(a.components) == normal_form(b.components) {
        if a.components.len() > 0 && b.components.len() > 0 {
            assert forall|i: int| 0 <= i < a.components.len() implies !#[trigger] a.components[i].contains('/') by {
                assert(safe_component(a.components[i]));
            }
            assert forall|i: int| 0 <= i < b.components.len() implies !#[trigger] b.components[i].contains('/') by {
                assert(safe_component(b.components[i]));
            }
            lemma_split_join(a.components);
            lemma_split_join(b.components);
        } else if a.components.len() > 0 {
            lemma_normal_form_ends(a.components);
        } else if b.components.len() > 0 {
            lemma_normal_form_ends(b.components);
        } else {
            assert(a.components =~= b.components);
        }
    }
}

/// Whether a text begins like a Windows drive: a letter and a colon.
pub proof fn law_drives(component: Seq<char>)
    ensures
        drive_prefix(component) <==> {
            &&& component.len() >= 2
            &&& component[1] == ':'
            &&& ('a' <= component[0] && component[0] <= 'z') || ('A' <= component[0]
                && component[0] <= 'Z')
        },
{
}

/// A path is refused exactly where one of these holds: it is empty or absolute;
/// it holds a backslash or a NUL; one of its pieces is the parent; none of them
/// names anything; the first that does begins like a drive; or it is too long
/// or too deep. Otherwise it means the pieces that name something, in order.
pub proof fn law_what_is_refused(path: Seq<char>)
    ensures
        ({
            let pieces = split(path, '/');
            let components = named(pieces);
            match parsed(path) {
                Some(view) => {
                    &&& path.len() > 0
                    &&& path[0] != '/'
                    &&& !path.contains('\\')
                    &&& !path.contains('\0')
                    &&& forall|i: int| 0 <= i < pieces.len() ==> #[trigger] pieces[i] != ".."@
                    &&& 0 < components.len() <= 256
                    &&& !drive_prefix(components[0])
                    &&& utf8_len(path) <= 4096
                    &&& utf8_len(join(components, "/"@)) <= 4096
                    &&& view.components == components
                },
                None => {
                    ||| path.len() == 0
                    ||| path[0] == '/'
                    ||| path.contains('\\')
                    ||| path.contains('\0')
                    ||| exists|i: int| 0 <= i < pieces.len() && #[trigger] pieces[i] == ".."@
                    ||| components.len() == 0
                    ||| components.len() > 256
                    ||| drive_prefix(components[0])
                    ||| utf8_len(path) > 4096
                    ||| utf8_len(join(components, "/"@)) > 4096
                },
            }
        }),
{
    let pieces = split(path, '/');
    if pieces.contains(".."@) {
        let i = choose|i: int| 0 <= i < pieces.len() && pieces[i] == ".."@;
        assert(pieces[i] == ".."@);
    }
    if parsed(path) is Some {
        assert forall|i: int| 0 <= i < pieces.len() implies #[trigger] pieces[i] != ".."@ by {
            if pieces[i] == ".."@ {
                assert(pieces.contains(".."@));
            }
        }
    }
}

/// No component of an accepted path is empty, `.` or `..`, and none holds a
/// slash, a backslash or a NUL.
pub proof fn law_accepted_components(path: Seq<char>, i: int)
    ensures
        parsed(path) matches Some(view) ==> (0 <= i < view.components.len() ==> {
            let c = view.components[i];
            &&& c.len() > 0
            &&& c != "."@
            &&& c != ".."@
            &&& !c.contains('/')
            &&& !c.contains('\\')
            &&& !c.contains('\0')
        }),
{
    law_accepted_paths_are_safe(path);
    if let Some(view) = parsed(path) {
        if 0 <= i < view.components.len() {
            assert(safe_component(view.components[i]));
        }
    }
}

/// A component is safe exactly where it names one entry of a directory.
pub proof fn law_safe_components(c: Seq<char>)
    ensures
        safe_component(c) <==> {
            &&& c.len() > 0
            &&& c != "."@
            &&& c != ".."@
            &&& !c.contains('/')
            &&& !c.contains('\\')
            &&& !c.contains('\0')
        },
{
}

/// A path that is accepted can only name a directory exactly where it ends with
/// a slash, or with a slash and a dot.
pub proof fn law_what_can_only_be_a_directory(path: Seq<char>)
    ensures
        parsed(path) matches Some(view) ==> (view.requires_directory <==> {
            let n = path.len() as int;
            path[n - 1] == '/' || (n >= 2 && path[n - 2] == '/' && path[n - 1] == '.')
        }),
{
    if acceptable(path) {
        let n = path.len() as int;
        let front = path.drop_last();
        reveal_strlit(".");
        lemma_split_pieces(front, '/');
        if path.last() != '/' {
            let before = split(front, '/');
            let pieces = split(path, '/');
            assert(pieces.last() == before.last().push(path.last()));
            assert(last_piece(pieces) == Some(pieces.last()));
            lemma_last_piece_is_empty(front);
            if n == 1 && path.last() == '.' {
                assert(path =~= "."@);
                assert(!path.contains('/'));
                lemma_split_single(path, '/');
                assert(split(path, '/').drop_last() =~= Seq::<Seq<char>>::empty());
                assert(named(split(path, '/').drop_last()).len() == 0);
            }
            if pieces.last() == "."@ {
                assert(before.last().len() == 0);
                assert(pieces.last()[0] == '.');
            }
            if before.last().len() == 0 && path.last() == '.' {
                assert(pieces.last() =~= "."@);
            }
        }
    }
}

/// The last piece of a text is empty exactly where the text is, or ends with
/// the separator.
proof fn lemma_last_piece_is_empty(s: Seq<char>)
    ensures
        split(s, '/').last().len() == 0 <==> s.len() == 0 || s.last() == '/',
{
    if s.len() > 0 {
        lemma_split_pieces(s.drop_last(), '/');
    }
}

/// A text is cut at every separator and nowhere else.
pub proof fn law_splitting(a: Seq<char>, b: Seq<char>, sep: char)
    ensures
        split(a + seq![sep] + b, sep) == split(a, sep) + split(b, sep),
        !a.contains(sep) ==> split(a, sep) == seq![a],
{
    lemma_split_concat(a, b, sep);
    assert(a + seq![sep] + b =~= a.push(sep) + b);
    if !a.contains(sep) {
        lemma_split_single(a, sep);
    }
}

/// Joining puts one separator between neighbours.
pub proof fn law_joining(a: Seq<Seq<char>>, b: Seq<Seq<char>>, one: Seq<char>, sep: Seq<char>)
    ensures
        join(Seq::<Seq<char>>::empty(), sep).len() == 0,
        join(seq![one], sep) == one,
        a.len() > 0 && b.len() > 0 ==> join(a + b, sep) == join(a, sep) + sep + join(b, sep),
        normal_form(a) == join(a, "/"@),
{
    if a.len() > 0 && b.len() > 0 {
        lemma_join_concat(a, b, sep);
    }
}

/// A piece names something unless it is empty or a dot, and pieces keep their
/// order.
pub proof fn law_naming(a: Seq<Seq<char>>, b: Seq<Seq<char>>, piece: Seq<char>)
    ensures
        named(a + b) == named(a) + named(b),
        piece.len() == 0 || piece == "."@ ==> named(seq![piece]).len() == 0,
        piece.len() > 0 && piece != "."@ ==> named(seq![piece]) == seq![piece],
    decreases b.len(),
{
    let one = seq![piece];
    assert(one.drop_last() =~= Seq::<Seq<char>>::empty());
    assert(named(one.drop_last()).len() == 0);
    if piece.len() > 0 && piece != "."@ {
        assert(named(one) =~= seq![piece]);
    }
    if b.len() == 0 {
        assert(a + b =~= a);
        assert(named(a) + named(b) =~= named(a));
    } else {
        law_naming(a, b.drop_last(), piece);
        assert((a + b).drop_last() =~= a + b.drop_last());
        assert((a + b).last() == b.last());
        assert(named(a + b) =~= named(a) + named(b));
    }
}

/// Two paths are joined exactly where the result keeps to the bounds; it is the
/// one followed by the other, and has to be a directory where the latter has.
pub proof fn law_joined_paths(parent: PathView, child: PathView)
    ensures
        ({
            let components = parent.components + child.components;
            match joined(parent, child) {
                Some(path) => {
                    &&& path.components == components
                    &&& path.requires_directory == child.requires_directory
                    &&& components.len() <= 256
                    &&& utf8_len(join(components, "/"@)) <= 4096
                },
                None => components.len() > 256 || utf8_len(join(components, "/"@)) > 4096,
            }
        }),
        PathView::root().components.len() == 0,
        PathView::root().requires_directory,
{
}

/// A path lies within another exactly where it begins with its components.
pub proof fn law_lying_within(path: PathView, ancestor: PathView)
    ensures
        lies_within(path, ancestor) <==> exists|rest: Seq<Seq<char>>|
            path.components == ancestor.components + rest,
{
    let n = ancestor.components.len() as int;
    if lies_within(path, ancestor) {
        assert(path.components =~= ancestor.components + path.components.skip(n));
    }
    if exists|rest: Seq<Seq<char>>| path.components == ancestor.components + rest {
        assert(path.components.take(n) =~= ancestor.components);
    }
}

/// What a path says of itself is what was read from its text, and joining two
/// paths puts one after the other.
pub proof fn law_paths_answer_for_themselves(
    text: &str,
    parse: Result<GuestRelativePath, FsError>,
    p: GuestRelativePath,
    q: GuestRelativePath,
    shown: &str,
    directory: bool,
    within: bool,
    same: bool,
    name: &str,
    named_so: bool,
    both: Result<GuestRelativePath, FsError>,
    root: GuestRelativePath,
)
    requires
        p.wf(),
        q.wf(),
        q@.components.len() > 0,
        call_ensures(GuestRelativePath::parse, (text,), parse),
        call_ensures(GuestRelativePath::as_path, (&p,), shown),
        call_ensures(GuestRelativePath::requires_directory, (&p,), directory),
        call_ensures(GuestRelativePath::is_within, (&p, &q), within),
        call_ensures(GuestRelativePath::same_components, (&p, &q), same),
        call_ensures(GuestRelativePath::is_named, (&p, name), named_so),
        call_ensures(GuestRelativePath::join, (&p, &q), both),
        call_ensures(GuestRelativePath::root, (), root),
    ensures
        parse is Ok <==> parsed(text@) is Some,
        parse matches Ok(path) ==> {
            let n = text@.len() as int;
            &&& path@.components == named(split(text@, '/'))
            &&& path@.requires_directory <==> text@[n - 1] == '/' || (n >= 2 && text@[n - 2] == '/'
                && text@[n - 1] == '.')
        },
        parse matches Err(e) ==> e is InvalidPath,
        shown@ == join(p@.components, "/"@),
        directory == p@.requires_directory,
        within <==> exists|rest: Seq<Seq<char>>| p@.components == q@.components + rest,
        same <==> p@.components == q@.components,
        named_so <==> p@.components.len() > 0 && p@.components.last() == name@,
        both is Ok <==> p@.components.len() + q@.components.len() <= 256 && utf8_len(
            join(p@.components + q@.components, "/"@),
        ) <= 4096,
        both matches Ok(path) ==> path@.components == p@.components + q@.components
            && path@.requires_directory == q@.requires_directory,
        both matches Err(e) ==> e is InvalidPath,
        root@.components.len() == 0,
        root@.requires_directory,
{
    law_what_is_refused(text@);
    law_what_can_only_be_a_directory(text@);
    law_lying_within(p@, q@);
    law_joined_paths(p@, q@);
}

/// A component is taken for a drive exactly where a letter and a colon begin it.
pub proof fn law_drives_are_recognized(component: &str, r: bool)
    requires
        call_ensures(GuestRelativePath::has_windows_drive_prefix, (component,), r),
    ensures
        r <==> {
            let c = component@;
            &&& c.len() >= 2
            &&& c[1] == ':'
            &&& ('a' <= c[0] && c[0] <= 'z') || ('A' <= c[0] && c[0] <= 'Z')
        },
{
    law_drives(component@);
}

} // verus!
