use vstd::prelude::*;

verus! {

/// A file found by a crawl: its display name and its path, which identifies it.
#[derive(Debug, Clone)]
pub struct FileItem {
    pub label: String,
    pub path: String,
}

/// What a directory entry is, following symbolic links.
#[derive(Debug, Clone, Copy, PartialEq, Eq, Structural)]
pub enum EntryKind {
    Directory,
    File,
    Other,
}

/// One entry of a directory listing: its file name, its full path and its kind.
#[derive(Debug, Clone)]
pub struct DirEntry {
    pub name: String,
    pub path: String,
    pub kind: EntryKind,
}

/// Why a crawl could not start.
#[derive(Debug, Clone)]
pub enum CrawlError {
    /// The root of the crawl does not exist.
    ResourceNotFound(String),
}

/// The file records that a listing contributes, in listing order.
pub open spec fn files_in(entries: Seq<DirEntry>) -> Seq<FileItem>
    decreases entries.len(),
{
    if entries.len() == 0 {
        Seq::empty()
    } else {
        let e = entries.last();
        let rest = files_in(entries.drop_last());
        if e.kind is File {
            rest.push(FileItem { label: e.name, path: e.path })
        } else {
            rest
        }
    }
}

/// The subdirectories that a listing contributes, in listing order.
pub open spec fn dirs_in(entries: Seq<DirEntry>) -> Seq<String>
    decreases entries.len(),
{
    if entries.len() == 0 {
        Seq::empty()
    } else {
        let e = entries.last();
        let rest = dirs_in(entries.drop_last());
        if e.kind is Directory {
            rest.push(e.path)
        } else {
            rest
        }
    }
}

/// A crawl in progress: the directories still to list and the files found so far.
///
/// The caller lists each directory that `next_dir` hands out and passes the
/// listing to `visit`, until `next_dir` hands out nothing.
#[derive(Debug)]
pub struct Crawl {
    pub pending: Vec<String>,
    pub items: Vec<FileItem>,
}

/// Starts a crawl of the tree rooted at `path`, given whether that root exists.
///
/// A missing root fails with `ResourceNotFound` and yields no record.
pub fn list_src_files(path: String, root_exists: bool) -> (r: Result<Crawl, CrawlError>)
    ensures
        r is Ok <==> root_exists,
        r matches Ok(c) ==> c.pending@ == seq![path] && c.items@.len() == 0,
        r matches Err(CrawlError::ResourceNotFound(p)) ==> p == path,
{
    if !root_exists {
        return Err(CrawlError::ResourceNotFound(path));
    }
    let mut pending: Vec<String> = Vec::new();
    pending.push(path);
    Ok(Crawl { pending, items: Vec::new() })
}

impl Crawl {
    /// Whether every directory handed out has been listed.
    pub fn is_done(&self) -> (r: bool)
        ensures
            r == (self.pending@.len() == 0),
    {
        self.pending.len() == 0
    }

    /// Hands out the next directory to list, if any is left.
    pub fn next_dir(&mut self) -> (r: Option<String>)
        ensures
            old(self).pending@.len() == 0 ==> r is None && *final(self) == *old(self),
            old(self).pending@.len() > 0 ==> {
                &&& r == Some(old(self).pending@.last())
                &&& final(self).pending@ == old(self).pending@.drop_last()
                &&& final(self).items@ == old(self).items@
            },
    {
        if self.pending.len() == 0 {
            return None;
        }
        self.pending.pop()
    }

    /// Takes in the listing of a directory that was handed out: its
    /// subdirectories are queued, its files recorded; other entries are skipped.
    pub fn visit(&mut self, entries: &Vec<DirEntry>)
        ensures
            final(self).pending@ == old(self).pending@ + dirs_in(entries@),
            final(self).items@ == old(self).items@ + files_in(entries@),
    {
        let mut i: usize = 0;
        while i < entries.len()
            invariant
                i <= entries@.len(),
                self.pending@ == old(self).pending@ + dirs_in(entries@.take(i as int)),
                self.items@ == old(self).items@ + files_in(entries@.take(i as int)),
            decreases entries@.len() - i,
        {
            let e = &entries[i];
            proof {
                assert(entries@.take(i + 1).drop_last() == entries@.take(i as int));
                assert(entries@.take(i + 1).last() == entries@[i as int]);
            }
            match e.kind {
                EntryKind::Directory => {
                    self.pending.push(e.path.clone());
                    assert(self.pending@ == old(self).pending@ + dirs_in(entries@.take(i + 1)));
                },
                EntryKind::File => {
                    self.items.push(FileItem { label: e.name.clone(), path: e.path.clone() });
                    assert(self.items@ == old(self).items@ + files_in(entries@.take(i + 1)));
                },
                EntryKind::Other => {},
            }
            i = i + 1;
        }
        assert(entries@.take(entries@.len() as int) == entries@);
    }

    /// The files found, once the crawl is over.
    pub fn into_items(self) -> (r: Vec<FileItem>)
        ensures
            r@ == self.items@,
    {
        self.items
    }
}

impl CrawlError {
    /// A message for the error, naming the missing root.
    pub fn message(&self) -> (r: String)
        ensures
            self matches CrawlError::ResourceNotFound(root) ==> r@ == "src directory not found at \""@
                + root@ + "\""@,
    {
        match self {
            CrawlError::ResourceNotFound(root) => {
                let mut m = String::from_str("src directory not found at \"");
                m.append(root.as_str());
                m.append("\"");
                m
            },
        }
    }
}

} // verus!
