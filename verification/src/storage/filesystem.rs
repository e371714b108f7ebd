//! The store on a file system: what to read, what to write and what to
//! remove. The file system itself is the caller's: it reports what it found
//! and carries out what is decided here.

use crate::span::elapsed;
use crate::span::Span;
use crate::storage::path::parent;
use crate::storage::path::path_parent;
use crate::storage::path::resolve;
use crate::storage::path::resolved;
use crate::storage::StorageError;
use crate::text::text;
use vstd::prelude::*;

verus! {

/// The size of the buffer that objects are read and written through.
pub const BUFFER_CAPACITY: usize = 16384;

/// Where the store keeps its objects.
#[derive(Debug)]
pub struct Config {
    /// The directory below which every object lives.
    pub root: String,
}

impl Config {
    /// The store below the configured root.
    pub fn repository(&self) -> (repository: Repository)
        ensures
            repository.root() == self.root@,
    {
        Repository { root: self.root.clone() }
    }
}

impl Clone for Config {
    fn clone(&self) -> (copy: Self)
        ensures
            copy == *self,
    {
        Config { root: self.root.clone() }
    }
}

/// What the file system reported of the place where an object would be.
#[derive(Debug)]
pub enum Probe {
    /// Nothing is stored there.
    Missing,
    /// The place could not be examined; the report of the backend is given.
    Failed(String),
    /// An object is stored there, last written at the time `modified`,
    /// counted from the Unix epoch.
    Found { modified: Span },
}

/// Whether an object last written at `modified` is too old at `now` for a
/// window of `window`: its age is the time from `modified` to `now`, or
/// nothing where `modified` lies in the future, and it is stale once the age
/// exceeds the window.
pub open spec fn stale(modified: nat, now: nat, window: nat) -> bool {
    elapsed(now, modified) > window
}

/// What an object is.
#[derive(Debug)]
pub enum Kind {
    /// A blob. Blobs are stored once for all namespaces.
    Blob,
    /// A manifest of the given namespace.
    Manifest(String),
}

/// What a removal covers: the blobs, or the manifests of one namespace.
/// This is the view of a [`Kind`].
pub ghost enum Scope {
    Blobs,
    Manifests(Seq<char>),
}

impl View for Kind {
    type V = Scope;

    open spec fn view(&self) -> Scope {
        match *self {
            Kind::Blob => Scope::Blobs,
            Kind::Manifest(namespace) => Scope::Manifests(namespace@),
        }
    }
}

impl Kind {
    /// Whether two objects of these kinds fall under the same removal: two
    /// blobs, or two manifests of one namespace.
    pub fn is_within(&self, scope: &Kind) -> (inside: bool)
        ensures
            inside == (self@ == scope@),
    {
        match (self, scope) {
            (Kind::Blob, Kind::Blob) => true,
            (Kind::Manifest(own), Kind::Manifest(wanted)) => *own == *wanted,
            _ => false,
        }
    }
}

/// A stored object as the file system lists it.
#[derive(Debug)]
pub struct Stored {
    /// What the object is.
    pub kind: Kind,
    /// Where the object is stored.
    pub path: String,
    /// When the object was last written, counted from the Unix epoch.
    pub modified: Span,
}

/// The paths of the objects of a listing that a removal takes away, in the
/// order of the listing: those within `scope` that are stale at `now` for
/// the window `max_age`.
pub open spec fn doomed(listing: Seq<Stored>, scope: Scope, now: nat, max_age: nat) -> Seq<
    Seq<char>,
>
    decreases listing.len(),
{
    if listing.len() == 0 {
        Seq::empty()
    } else {
        let object = listing.last();
        let earlier = doomed(listing.drop_last(), scope, now, max_age);
        if object.kind@ == scope && stale(object.modified@, now, max_age) {
            earlier.push(object.path@)
        } else {
            earlier
        }
    }
}

/// Where to write an object.
#[derive(Debug)]
pub struct WritePlan {
    /// The file to write. It is created where it is missing and emptied
    /// where it exists; the bytes then go into the file itself, so a reader
    /// may see a part of the object while the write goes on.
    pub path: String,
    /// The directory that must exist before the file is opened, if the path
    /// has one.
    pub parent: Option<String>,
}

/// The store: objects below a root directory.
#[derive(Debug)]
pub struct Repository {
    root: String,
}

impl Clone for Repository {
    fn clone(&self) -> (copy: Self)
        ensures
            copy.root() == self.root(),
    {
        Repository { root: self.root.clone() }
    }
}

impl Repository {
    /// The directory below which every object lives.
    pub closed spec fn root(self) -> Seq<char> {
        self.root@
    }

    /// Where the object `object` lives.
    pub open spec fn location(self, object: Seq<char>) -> Seq<char> {
        resolved(self.root(), object)
    }

    /// Where the object `object` lives: below the root, at the plain names
    /// that the identifier holds. Whatever else the identifier holds (a
    /// leading `/`, `.`, `..`) is dropped, so that no identifier leads out of
    /// the root.
    pub fn full_path(&self, object: &str) -> (path: String)
        ensures
            path@ == self.location(object@),
    {
        resolve(self.root.as_str(), object)
    }

    /// Decides a read of `object`, given what the file system reported of
    /// [`full_path`](Repository::full_path) of it and the time `now`.
    ///
    /// Nothing stored is `NotFound`, a place that could not be examined is
    /// `Io`. An object whose age exceeds `invalidation` is `ObjectTooOld`
    /// with its age, and is never read. Any other object is read: the path
    /// of the file to stream is handed back.
    pub fn read(&self, object: &str, probe: Probe, now: Span, invalidation: Span) -> (outcome:
        Result<String, StorageError>)
        ensures
            match probe {
                Probe::Missing => outcome matches Err(StorageError::NotFound),
                Probe::Failed(report) => outcome matches Err(StorageError::Io(given)) && given@
                    == report@,
                Probe::Found { modified } => if stale(modified@, now@, invalidation@) {
                    outcome matches Err(StorageError::ObjectTooOld(age)) && age@ == elapsed(
                        now@,
                        modified@,
                    )
                } else {
                    outcome matches Ok(path) && path@ == self.location(object@)
                },
            },
    {
        match probe {
            Probe::Missing => Err(StorageError::NotFound),
            Probe::Failed(report) => Err(StorageError::Io(report)),
            Probe::Found { modified } => {
                let age = now.elapsed_since(modified);
                if age.exceeds(invalidation) {
                    Err(StorageError::ObjectTooOld(age))
                } else {
                    Ok(self.full_path(object))
                }
            },
        }
    }

    /// Plans a write of `object`: the file that the bytes go to, and the
    /// directory to make first.
    pub fn write(&self, object: &str) -> (plan: WritePlan)
        ensures
            plan.path@ == self.location(object@),
            text(plan.parent) == path_parent(plan.path@),
    {
        let path = self.full_path(object);
        let parent = parent(path.as_str());
        WritePlan { path, parent }
    }

    /// The paths to remove from a listing of the store so that no blob
    /// older than `max_age` stays. The number of paths is the number of
    /// objects that the removal takes away.
    pub fn delete_old_blobs(&self, listing: &Vec<Stored>, now: Span, max_age: Span) -> (paths: Vec<
        String,
    >)
        ensures
            paths.deep_view() == doomed(listing@, Scope::Blobs, now@, max_age@),
    {
        expired(listing, &Kind::Blob, now, max_age)
    }

    /// The paths to remove from a listing of the store so that no manifest
    /// of `namespace` older than `max_age` stays. The number of paths is the
    /// number of objects that the removal takes away.
    pub fn delete_old_manifests(
        &self,
        namespace: &str,
        listing: &Vec<Stored>,
        now: Span,
        max_age: Span,
    ) -> (paths: Vec<String>)
        ensures
            paths.deep_view() == doomed(listing@, Scope::Manifests(namespace@), now@, max_age@),
    {
        let scope = Kind::Manifest(namespace.to_owned());
        expired(listing, &scope, now, max_age)
    }
}

/// The paths of the objects of `listing` within `scope` that are stale at
/// `now` for the window `max_age`, in the order of the listing.
pub fn expired(listing: &Vec<Stored>, scope: &Kind, now: Span, max_age: Span) -> (paths: Vec<
    String,
>)
    ensures
        paths.deep_view() == doomed(listing@, scope@, now@, max_age@),
{
    let mut paths: Vec<String> = Vec::new();
    let mut i: usize = 0;
    assert(listing@.take(0) =~= Seq::<Stored>::empty());
    assert(paths.deep_view() =~= Seq::<Seq<char>>::empty());
    while i < listing.len()
        invariant
            i <= listing.len(),
            paths.deep_view() == doomed(listing@.take(i as int), scope@, now@, max_age@),
        decreases listing.len() - i,
    {
        let ghost before = paths.deep_view();
        proof {
            assert(listing@.take(i + 1).drop_last() =~= listing@.take(i as int));
            assert(listing@.take(i + 1).last() == listing@[i as int]);
        }
        let object = &listing[i];
        if object.kind.is_within(scope) && now.elapsed_since(object.modified).exceeds(max_age) {
            paths.push(object.path.clone());
            assert(paths.deep_view() =~= before.push(object.path@));
        }
        i += 1;
    }
    assert(listing@.take(listing.len() as int) =~= listing@);
    paths
}

} // verus!
