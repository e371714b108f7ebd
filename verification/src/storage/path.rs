//! Where an object lives: its identifier, resolved below the storage root.
//!
//! An object identifier is caller-controlled text. It is split into
//! components by the path library, and only the components that name
//! something are kept: a root, a prefix, `.` and `..` never take part in the
//! resolved location. What counts as a name is decided twice: the path
//! library has to call the component a name, and the name has to be plain,
//! which is checked here character by character.

use camino::Utf8Component;
use camino::Utf8Path;
use crate::text::text;
use vstd::prelude::*;

verus! {

/// One component of a path.
#[derive(Debug)]
pub enum Segment {
    /// A prefix such as a drive letter.
    Prefix,
    /// The root that an absolute path starts from.
    RootDir,
    /// The current directory, `.`.
    CurDir,
    /// The parent directory, `..`.
    ParentDir,
    /// The name of a file or a directory.
    Normal(String),
}

/// A component of a path as a mathematical value.
pub ghost enum Part {
    Prefix,
    RootDir,
    CurDir,
    ParentDir,
    Normal(Seq<char>),
}

impl View for Segment {
    type V = Part;

    open spec fn view(&self) -> Part {
        match *self {
            Segment::Prefix => Part::Prefix,
            Segment::RootDir => Part::RootDir,
            Segment::CurDir => Part::CurDir,
            Segment::ParentDir => Part::ParentDir,
            Segment::Normal(name) => Part::Normal(name@),
        }
    }
}

impl DeepView for Segment {
    type V = Part;

    open spec fn deep_view(&self) -> Part {
        self@
    }
}

/// The components that `camino::Utf8Path::components` yields for a path, in
/// their order, by the path rules of the platform that the library is built
/// for.
pub uninterp spec fn path_components(path: Seq<char>) -> Seq<Part>;

/// The path that `camino::Utf8Path::join` makes of a base and a path
/// adjoined to it.
pub uninterp spec fn path_join(base: Seq<char>, path: Seq<char>) -> Seq<char>;

/// The path without its final component that `camino::Utf8Path::parent`
/// gives, if there is one.
pub uninterp spec fn path_parent(path: Seq<char>) -> Option<Seq<char>>;

/// Splits a path into its components with `camino::Utf8Path::components`.
/// The components come back as that iterator yields them, each as the
/// segment of the same kind; the text of a prefix is left out.
#[verifier::external_body]
pub(crate) fn components(path: &str) -> (segments: Vec<Segment>)
    ensures
        segments.deep_view() == path_components(path@),
{
    Utf8Path::new(path).components().map(|component| match component {
        Utf8Component::Prefix(_) => Segment::Prefix,
        Utf8Component::RootDir => Segment::RootDir,
        Utf8Component::CurDir => Segment::CurDir,
        Utf8Component::ParentDir => Segment::ParentDir,
        Utf8Component::Normal(name) => Segment::Normal(name.to_owned()),
    }).collect()
}

/// Adjoins `path` to `base` with `camino::Utf8Path::join`.
#[verifier::external_body]
pub(crate) fn join(base: &str, path: &str) -> (joined: String)
    ensures
        joined@ == path_join(base@, path@),
{
    Utf8Path::new(base).join(path).into_string()
}

/// The parent of `path` by `camino::Utf8Path::parent`: the path without its
/// final component, or nothing where it ends in a root or is empty.
#[verifier::external_body]
pub(crate) fn parent(path: &str) -> (dir: Option<String>)
    ensures
        text(dir) == path_parent(path@),
{
    Utf8Path::new(path).parent().map(|dir| dir.as_str().to_owned())
}

/// Whether `name` can stand for one file or directory and nothing else: it
/// is not empty, holds no `/`, and is neither `.` nor `..`.
pub open spec fn plain_name(name: Seq<char>) -> bool {
    &&& name.len() > 0
    &&& !name.contains('/')
    &&& name != seq!['.']
    &&& name != seq!['.', '.']
}

/// Whether a component is kept: it is a name, and the name is plain.
pub open spec fn kept(part: Part) -> bool {
    part matches Part::Normal(name) && plain_name(name)
}

/// The plain names among the components of a path, in their order.
/// Everything else is dropped: a prefix, a root, `.` and `..`.
pub open spec fn kept_names(parts: Seq<Part>) -> Seq<Seq<char>>
    decreases parts.len(),
{
    if parts.len() == 0 {
        Seq::empty()
    } else if kept(parts.last()) {
        kept_names(parts.drop_last()).push(parts.last()->Normal_0)
    } else {
        kept_names(parts.drop_last())
    }
}

/// The relative path made of the given names, adjoined one after the other.
pub open spec fn relative(names: Seq<Seq<char>>) -> Seq<char>
    decreases names.len(),
{
    if names.len() == 0 {
        Seq::empty()
    } else {
        path_join(relative(names.drop_last()), names.last())
    }
}

/// Where the object `object` lives below `root`: the root with the names
/// of the identifier adjoined, and nothing else of the identifier.
pub open spec fn resolved(root: Seq<char>, object: Seq<char>) -> Seq<char> {
    path_join(root, relative(kept_names(path_components(object))))
}

/// Whether `name` is a plain name.
pub fn is_plain_name(name: &str) -> (plain: bool)
    ensures
        plain == plain_name(name@),
{
    let mut length: usize = 0;
    let mut dots: usize = 0;
    let mut separated = false;
    for c in it: name.chars()
        invariant
            it.seq() == name@,
            dots <= length <= 3,
            length == if it.index() < 3 {
                it.index()
            } else {
                3
            },
            dots == length <==> forall|k: int| 0 <= k < length ==> name@[k] == '.',
            separated <==> exists|k: int| 0 <= k < it.index() && name@[k] == '/',
    {
        if c == '/' {
            separated = true;
        }
        if length < 3 {
            if c == '.' {
                dots += 1;
            }
            length += 1;
        }
    }
    proof {
        if !separated {
            assert(!name@.contains('/'));
        }
        if dots == length && length == 1 {
            assert(name@ =~= seq!['.']);
        }
        if dots == length && length == 2 {
            assert(name@ =~= seq!['.', '.']);
        }
    }
    !separated && length > 0 && !(dots == length && length <= 2)
}

/// Keeps the plain names among the components of a path and drops the
/// rest.
pub fn sanitize(segments: Vec<Segment>) -> (names: Vec<String>)
    ensures
        names.deep_view() == kept_names(segments.deep_view()),
{
    let mut names: Vec<String> = Vec::new();
    let mut i: usize = 0;
    assert(segments.deep_view().take(0) =~= Seq::<Part>::empty());
    assert(names.deep_view() =~= Seq::<Seq<char>>::empty());
    while i < segments.len()
        invariant
            i <= segments.len(),
            names.deep_view() == kept_names(segments.deep_view().take(i as int)),
        decreases segments.len() - i,
    {
        let ghost before = names.deep_view();
        proof {
            let parts = segments.deep_view();
            assert(parts.take(i + 1).drop_last() =~= parts.take(i as int));
            assert(parts.take(i + 1).last() == segments[i as int]@);
        }
        match &segments[i] {
            Segment::Normal(name) => {
                if is_plain_name(name.as_str()) {
                    names.push(name.clone());
                    assert(names.deep_view() =~= before.push(name@));
                }
            },
            _ => {},
        }
        i += 1;
    }
    assert(segments.deep_view().take(segments.len() as int) =~= segments.deep_view());
    names
}

/// Adjoins the given names one after the other, starting from the empty
/// path.
pub fn relative_path(names: &Vec<String>) -> (path: String)
    ensures
        path@ == relative(names.deep_view()),
{
    let mut path = String::new();
    let mut i: usize = 0;
    assert(names.deep_view().take(0) =~= Seq::<Seq<char>>::empty());
    while i < names.len()
        invariant
            i <= names.len(),
            path@ == relative(names.deep_view().take(i as int)),
        decreases names.len() - i,
    {
        proof {
            let all = names.deep_view();
            assert(all.take(i + 1).drop_last() =~= all.take(i as int));
            assert(all.take(i + 1).last() == names[i as int]@);
        }
        path = join(path.as_str(), names[i].as_str());
        i += 1;
    }
    assert(names.deep_view().take(names.len() as int) =~= names.deep_view());
    path
}

/// Resolves the object identifier `object` below `root`.
pub fn resolve(root: &str, object: &str) -> (path: String)
    ensures
        path@ == resolved(root@, object@),
{
    let names = sanitize(components(object));
    let below = relative_path(&names);
    join(root, below.as_str())
}

/// The names kept of two runs of components are those of the first run
/// followed by those of the second.
pub proof fn lemma_kept_names_of_concat(first: Seq<Part>, second: Seq<Part>)
    ensures
        kept_names(first + second) == kept_names(first) + kept_names(second),
    decreases second.len(),
{
    if second.len() == 0 {
        assert(first + second =~= first);
        assert(kept_names(first) + kept_names(second) =~= kept_names(first));
    } else {
        assert((first + second).drop_last() =~= first + second.drop_last());
        assert((first + second).last() == second.last());
        lemma_kept_names_of_concat(first, second.drop_last());
        if kept(second.last()) {
            assert(kept_names(first + second) =~= kept_names(first) + kept_names(second));
        }
    }
}

/// Whatever the identifier holds, the location is made of plain names
/// alone: every kept name is the name of a component of the identifier,
/// holds no `/`, and is neither empty nor `.` nor `..`. No more names are
/// kept than the identifier has components.
pub proof fn lemma_kept_names_are_plain(parts: Seq<Part>)
    ensures
        kept_names(parts).len() <= parts.len(),
        forall|i: int|
            0 <= i < kept_names(parts).len() ==> plain_name(#[trigger] kept_names(parts)[i])
                && parts.contains(Part::Normal(kept_names(parts)[i])),
    decreases parts.len(),
{
    if parts.len() > 0 {
        let front = parts.drop_last();
        lemma_kept_names_are_plain(front);
        assert forall|i: int| 0 <= i < kept_names(parts).len() implies plain_name(
            #[trigger] kept_names(parts)[i],
        ) && parts.contains(Part::Normal(kept_names(parts)[i])) by {
            if i < kept_names(front).len() {
                assert(front.contains(Part::Normal(kept_names(front)[i])));
                let j = choose|j: int|
                    0 <= j < front.len() && front[j] == Part::Normal(kept_names(front)[i]);
                assert(parts[j] == front[j]);
            } else {
                assert(parts[parts.len() - 1] == parts.last());
            }
        }
    }
}

/// A component that is not kept has no part in the resolved location: with
/// it or without it in the identifier, the same names are kept. So it is
/// with `..` wherever it stands, with a leading root, and with `.`.
pub proof fn lemma_traversal_is_ignored(before: Seq<Part>, part: Part, after: Seq<Part>)
    requires
        !kept(part),
    ensures
        kept_names(before + seq![part] + after) == kept_names(before + after),
{
    lemma_kept_names_of_concat(before + seq![part], after);
    lemma_kept_names_of_concat(before, seq![part]);
    lemma_kept_names_of_concat(before, after);
    let alone = seq![part];
    assert(alone.last() == part);
    assert(kept_names(alone.drop_last()) =~= Seq::<Seq<char>>::empty());
    assert(kept_names(alone) =~= Seq::<Seq<char>>::empty());
    assert(kept_names(before) + Seq::<Seq<char>>::empty() =~= kept_names(before));
}

/// Neither `..` nor `.` nor a root nor a prefix is ever kept, and no name
/// that spells one of them or holds a `/`.
pub proof fn lemma_traversal_is_not_kept()
    ensures
        !kept(Part::ParentDir),
        !kept(Part::CurDir),
        !kept(Part::RootDir),
        !kept(Part::Prefix),
        !kept(Part::Normal(seq!['.', '.'])),
        !kept(Part::Normal(seq!['.'])),
        !kept(Part::Normal(Seq::empty())),
        forall|name: Seq<char>| name.contains('/') ==> !kept(Part::Normal(name)),
{
}

} // verus!
