//! The walk over a tree of directories and the authors that each directory
//! has in scope.

use std::sync::Arc;
use vstd::prelude::*;
use crate::error::Error;
use crate::input::{Author, Metadata, Wallpaper};

verus! {

/// The resolved context of one directory that holds a manifest: what the
/// manifest declares, and the context of the nearest directory above it that
/// holds a manifest too.
#[derive(Clone, Debug)]
pub struct MetadataWrapper {
    parent: Option<Arc<MetadataWrapper>>,
    path: String,
    metadata: Metadata,
}

impl MetadataWrapper {
    /// The context that this one inherits from, if any.
    pub closed spec fn parent_spec(&self) -> Option<MetadataWrapper> {
        match self.parent {
            Some(p) => Some(*p),
            None => None,
        }
    }

    /// The directory of this context.
    pub closed spec fn path_spec(&self) -> Seq<char> {
        self.path@
    }

    /// What the manifest of this directory declares.
    pub closed spec fn metadata_spec(&self) -> Metadata {
        self.metadata
    }

    /// The authors in scope: those of the contexts above, outermost first,
    /// then the directory's own.
    pub closed spec fn authors_spec(&self) -> Seq<Author>
        decreases self,
    {
        match self.parent {
            Some(p) => p.authors_spec() + self.metadata.authors@,
            None => self.metadata.authors@,
        }
    }

    /// The authors that come down from the contexts above.
    pub closed spec fn inherited_spec(&self) -> Seq<Author> {
        match self.parent {
            Some(p) => p.authors_spec(),
            None => Seq::<Author>::empty(),
        }
    }

    /// The authors that a manifest has in scope under `parent`.
    pub open spec fn scope(parent: Option<Arc<MetadataWrapper>>, metadata: Metadata) -> Seq<Author> {
        match parent {
            Some(p) => p.authors_spec() + metadata.authors@,
            None => metadata.authors@,
        }
    }

    /// Whether a manifest may stand under `parent`: one that declares a
    /// wallpaper needs an author in scope.
    pub open spec fn admissible(parent: Option<Arc<MetadataWrapper>>, metadata: Metadata) -> bool {
        metadata.wallpapers@.len() == 0 || Self::scope(parent, metadata).len() > 0
    }

    /// Resolves the manifest of the directory `path` under the context that
    /// the directory inherits. It fails, naming the directory, exactly when
    /// the manifest declares a wallpaper and no author is in scope.
    pub fn new(path: &str, metadata: Metadata, parent: Option<Arc<Self>>) -> (r: Result<
        Arc<Self>,
        Error,
    >)
        ensures
            match r {
                Ok(w) => {
                    &&& Self::admissible(parent, metadata)
                    &&& w.path_spec() == path@
                    &&& w.metadata_spec() == metadata
                    &&& w.parent_spec() == match parent {
                        Some(p) => Some(*p),
                        None => None,
                    }
                    &&& w.authors_spec() == Self::scope(parent, metadata)
                },
                Err(e) => {
                    &&& !Self::admissible(parent, metadata)
                    &&& e matches Error::InheritanceViolation { path: p }
                    &&& p@ == path@
                },
            },
    {
        let inherits = match &parent {
            Some(p) => p.has_authors(),
            None => false,
        };
        if metadata.wallpapers.len() > 0 && metadata.authors.len() == 0 && !inherits {
            return Err(Error::InheritanceViolation { path: path.to_owned() });
        }
        Ok(Arc::new(Self { parent, path: path.to_owned(), metadata }))
    }

    /// Whether any author is in scope.
    pub fn has_authors(&self) -> (r: bool)
        ensures
            r == (self.authors_spec().len() > 0),
        decreases self,
    {
        if self.metadata.authors.len() > 0 {
            true
        } else {
            match &self.parent {
                Some(p) => p.has_authors(),
                None => false,
            }
        }
    }

    /// The authors in scope, those inherited first and the directory's own
    /// after them.
    pub fn authors(&self) -> (r: Vec<&Author>)
        ensures
            r@.len() == self.authors_spec().len(),
            forall|i: int| 0 <= i < r@.len() ==> *#[trigger] r@[i] == self.authors_spec()[i],
        decreases self,
    {
        let mut r: Vec<&Author> = match &self.parent {
            Some(p) => p.authors(),
            None => Vec::new(),
        };
        let ghost inherited = r@;
        let ghost above = self.inherited_spec();
        assert(inherited.len() == above.len());
        assert(forall|j: int| 0 <= j < inherited.len() ==> *#[trigger] inherited[j] == above[j]);
        assert(self.authors_spec() =~= above + self.metadata.authors@);
        let own = &self.metadata.authors;
        let n = own.len();
        let mut i: usize = 0;
        while i < n
            invariant
                n == own@.len(),
                i <= n,
                r@.len() == inherited.len() + i,
                forall|j: int| 0 <= j < inherited.len() ==> #[trigger] r@[j] == inherited[j],
                forall|j: int| 0 <= j < i ==> *#[trigger] r@[inherited.len() + j] == own@[j],
            decreases n - i,
        {
            r.push(&own[i]);
            i += 1;
        }
        proof {
            assert forall|k: int| 0 <= k < r@.len() implies *#[trigger] r@[k]
                == self.authors_spec()[k] by {
                if k >= inherited.len() {
                    assert(*r@[inherited.len() + (k - inherited.len())] == own@[k
                        - inherited.len()]);
                } else {
                    assert(r@[k] == inherited[k]);
                    assert(*inherited[k] == above[k]);
                }
            }
        }
        r
    }

    /// The wallpapers that the manifest of this directory declares. None is
    /// inherited.
    pub fn wallpapers(&self) -> (r: Vec<&Wallpaper>)
        ensures
            r@.len() == self.metadata_spec().wallpapers@.len(),
            forall|i: int|
                0 <= i < r@.len() ==> *#[trigger] r@[i] == self.metadata_spec().wallpapers@[i],
    {
        let all = &self.metadata.wallpapers;
        let mut r: Vec<&Wallpaper> = Vec::new();
        let n = all.len();
        let mut i: usize = 0;
        while i < n
            invariant
                n == all@.len(),
                i <= n,
                r@.len() == i,
                forall|j: int| 0 <= j < i ==> *#[trigger] r@[j] == all@[j],
            decreases n - i,
        {
            r.push(&all[i]);
            i += 1;
        }
        r
    }

    /// The directory of this context.
    pub fn path(&self) -> (r: &str)
        ensures
            r@ == self.path_spec(),
    {
        self.path.as_str()
    }
}

/// A child context has in scope the authors of the context it inherits from,
/// in their order, and after them the authors that its own manifest declares.
pub proof fn lemma_child_scope_extends_parent(child: MetadataWrapper, parent: MetadataWrapper)
    requires
        child.parent_spec() == Some(parent),
    ensures
        child.authors_spec() == parent.authors_spec() + child.metadata_spec().authors@,
        parent.authors_spec().is_prefix_of(child.authors_spec()),
        forall|i: int|
            0 <= i < parent.authors_spec().len() ==> child.authors_spec()[i]
                == parent.authors_spec()[i],
{
}

/// A context without one above it has its own authors in scope and no others.
pub proof fn lemma_root_scope_is_own(root: MetadataWrapper)
    requires
        root.parent_spec() is None,
    ensures
        root.authors_spec() == root.metadata_spec().authors@,
{
}

/// `Arc::clone` of the standard library: another handle to the same context.
#[verifier::external_body]
fn share(context: &Arc<MetadataWrapper>) -> (r: Arc<MetadataWrapper>)
    ensures
        r == *context,
{
    Arc::clone(context)
}

/// Another handle to the context that a directory hands down, if it has one.
fn share_inherited(context: &Option<Arc<MetadataWrapper>>) -> (r: Option<Arc<MetadataWrapper>>)
    ensures
        r == *context,
{
    match context {
        Some(c) => Some(share(c)),
        None => None,
    }
}

/// A directory that waits to be visited, with the context that it inherits:
/// that of the nearest directory above it that holds a manifest.
#[derive(Clone, Debug)]
pub struct PendingDirectory {
    /// The directory.
    pub path: String,
    /// The context that the directory inherits, if any.
    pub parent: Option<Arc<MetadataWrapper>>,
}

/// The walk over a tree of directories. It keeps the directories that are
/// known and not yet visited; the caller reads each directory and reports
/// what it found there.
#[derive(Clone, Debug)]
pub struct DirectoryIter {
    paths: Vec<PendingDirectory>,
}

/// The directories `children`, each waiting with the context `parent`.
pub open spec fn scheduled(children: Seq<String>, parent: Option<Arc<MetadataWrapper>>) -> Seq<
    PendingDirectory,
> {
    children.map_values(|path: String| PendingDirectory { path, parent })
}

impl View for DirectoryIter {
    type V = Seq<PendingDirectory>;

    /// The directories that wait, the next one to visit last.
    closed spec fn view(&self) -> Seq<PendingDirectory> {
        self.paths@
    }
}

impl DirectoryIter {
    /// Starts a walk at `path`. The caller says whether `path` is a
    /// directory: where it is not, the walk fails and names the path.
    pub fn start(path: &str, is_dir: bool) -> (r: Result<Self, Error>)
        ensures
            match r {
                Ok(walk) => {
                    &&& is_dir
                    &&& walk@.len() == 1
                    &&& walk@[0].path@ == path@
                    &&& walk@[0].parent is None
                },
                Err(e) => {
                    &&& !is_dir
                    &&& e matches Error::StructuralError { path: p }
                    &&& p@ == path@
                },
            },
    {
        if !is_dir {
            return Err(Error::StructuralError { path: path.to_owned() });
        }
        let mut paths: Vec<PendingDirectory> = Vec::new();
        paths.push(PendingDirectory { path: path.to_owned(), parent: None });
        Ok(Self { paths })
    }

    /// Takes the directory to visit next, the one that became known last, or
    /// `None` when every known directory has been visited.
    pub fn next_directory(&mut self) -> (r: Option<PendingDirectory>)
        ensures
            match r {
                Some(directory) => old(self)@.len() > 0 && directory == old(self)@.last()
                    && final(self)@ == old(self)@.drop_last(),
                None => old(self)@.len() == 0 && final(self)@ == old(self)@,
            },
    {
        self.paths.pop()
    }

    /// Records what the caller found in `directory`: its subdirectories and,
    /// where it holds one, its manifest.
    ///
    /// A manifest is resolved under the context that the directory inherits.
    /// The subdirectories are scheduled, in the order given, with the context
    /// that they inherit: the directory's own where it holds a manifest, else
    /// the one that the directory inherits itself. The result is the resolved
    /// context where there is a manifest. Where the manifest declares a
    /// wallpaper with no author in scope the visit fails and schedules nothing.
    pub fn visit(
        &mut self,
        directory: PendingDirectory,
        subdirectories: Vec<String>,
        manifest: Option<Metadata>,
    ) -> (r: Result<Option<Arc<MetadataWrapper>>, Error>)
        ensures
            match (manifest, r) {
                (None, Ok(None)) => final(self)@ == old(self)@ + scheduled(
                    subdirectories@,
                    directory.parent,
                ),
                (Some(metadata), Ok(Some(context))) => {
                    &&& MetadataWrapper::admissible(directory.parent, metadata)
                    &&& context.path_spec() == directory.path@
                    &&& context.metadata_spec() == metadata
                    &&& context.authors_spec() == MetadataWrapper::scope(directory.parent, metadata)
                    &&& context.parent_spec() == match directory.parent {
                        Some(p) => Some(*p),
                        None => None,
                    }
                    &&& final(self)@ == old(self)@ + scheduled(subdirectories@, Some(context))
                },
                (Some(metadata), Err(e)) => {
                    &&& !MetadataWrapper::admissible(directory.parent, metadata)
                    &&& e matches Error::InheritanceViolation { path: p }
                    &&& p@ == directory.path@
                    &&& final(self)@ == old(self)@
                },
                _ => false,
            },
    {
        let PendingDirectory { path, parent } = directory;
        let (context, found) = match manifest {
            Some(metadata) => {
                match MetadataWrapper::new(path.as_str(), metadata, parent) {
                    Ok(context) => (Some(share(&context)), Some(context)),
                    Err(e) => {
                        return Err(e);
                    },
                }
            },
            None => (parent, None),
        };
        let ghost before = self.paths@;
        let ghost children = subdirectories@;
        let mut subdirectories = subdirectories;
        let mut rest: Vec<String> = Vec::new();
        // Children are taken from the back, so they are restored to the
        // given order before they are scheduled.
        while subdirectories.len() > 0
            invariant
                subdirectories@.len() + rest@.len() == children.len(),
                forall|j: int| 0 <= j < subdirectories@.len() ==> subdirectories@[j] == children[j],
                forall|j: int|
                    0 <= j < rest@.len() ==> #[trigger] rest@[j] == children[children.len() - 1 - j],
            decreases subdirectories@.len(),
        {
            match subdirectories.pop() {
                Some(child) => rest.push(child),
                None => {},
            }
        }
        while rest.len() > 0
            invariant
                rest@.len() <= children.len(),
                forall|j: int|
                    0 <= j < rest@.len() ==> #[trigger] rest@[j] == children[children.len() - 1 - j],
                self.paths@ == before + scheduled(
                    children.take(children.len() - rest@.len()),
                    context,
                ),
            decreases rest@.len(),
        {
            let ghost k = children.len() - rest@.len();
            match rest.pop() {
                Some(child) => {
                    self.paths.push(
                        PendingDirectory { path: child, parent: share_inherited(&context) },
                    );
                    proof {
                        assert(child == children[k]);
                        assert(self.paths@ =~= before + scheduled(children.take(k + 1), context));
                    }
                },
                None => {},
            }
        }
        proof {
            assert(children.take(children.len() as int) =~= children);
        }
        Ok(found)
    }
}

} // verus!
