//! The pages that were made of the files in a directory.
use crate::path::{components, same_path, Part};
use vstd::prelude::*;
use vstd::string::*;

verus! {

/// A page and the age of the file that it was made of.
#[derive(Debug)]
pub struct CachedFile {
    /// When the file was last modified once the page was made, in nanoseconds since the epoch.
    pub last_modified: i128,
    pub cached_html: String,
}

/// A page and the age of its file, as contracts speak of them.
pub struct CachedPage {
    pub last_modified: i128,
    pub html: Seq<char>,
}

impl View for CachedFile {
    type V = CachedPage;

    open spec fn view(&self) -> CachedPage {
        CachedPage { last_modified: self.last_modified, html: self.cached_html@ }
    }
}

/// Pages by the paths of their files.
#[derive(Debug)]
pub struct FileCache {
    entries: Vec<(Vec<u8>, CachedFile)>,
}

spec fn key_at(entries: Seq<(Vec<u8>, CachedFile)>, i: int) -> Seq<Part> {
    components(entries[i].0@)
}

spec fn holds_at(entries: Seq<(Vec<u8>, CachedFile)>, key: Seq<Part>, i: int) -> bool {
    0 <= i < entries.len() && key_at(entries, i) == key
}

spec fn pages(entries: Seq<(Vec<u8>, CachedFile)>) -> Map<Seq<Part>, CachedPage> {
    Map::new(
        |key: Seq<Part>| exists|i: int| holds_at(entries, key, i),
        |key: Seq<Part>| entries[choose|i: int| holds_at(entries, key, i)].1@,
    )
}

impl View for FileCache {
    type V = Map<Seq<Part>, CachedPage>;

    closed spec fn view(&self) -> Map<Seq<Part>, CachedPage> {
        pages(self.entries@)
    }
}

impl FileCache {
    /// No path occurs twice.
    #[verifier::type_invariant]
    spec fn has_distinct_paths(self) -> bool {
        forall|i: int, j: int|
            0 <= i < j < self.entries@.len() ==> #[trigger] key_at(self.entries@, i)
                != #[trigger] key_at(self.entries@, j)
    }

    /// A cache without any page.
    pub fn new() -> (r: FileCache)
        ensures
            r@ == Map::<Seq<Part>, CachedPage>::empty(),
    {
        let r = FileCache { entries: Vec::new() };
        assert(r@ =~= Map::empty());
        r
    }

    /// The place of the page of a file, or the number of pages.
    fn place_of(entries: &Vec<(Vec<u8>, CachedFile)>, path: &[u8]) -> (r: usize)
        ensures
            r <= entries@.len(),
            r < entries@.len() ==> holds_at(entries@, components(path@), r as int),
            r == entries@.len() ==> forall|i: int| !holds_at(entries@, components(path@), i),
    {
        let mut i: usize = 0;
        while i < entries.len()
            invariant
                i <= entries@.len(),
                forall|k: int| 0 <= k < i ==> !holds_at(entries@, components(path@), k),
            decreases entries@.len() - i,
        {
            if same_path(entries[i].0.as_slice(), path) {
                return i;
            }
            i = i + 1;
        }
        i
    }

    /// The page of a file.
    pub fn get(&self, path: &[u8]) -> (r: Option<&CachedFile>)
        ensures
            match r {
                Some(file) => self@.contains_key(components(path@)) && self@[components(path@)]
                    == file@,
                None => !self@.contains_key(components(path@)),
            },
    {
        proof {
            use_type_invariant(self);
        }
        let i = FileCache::place_of(&self.entries, path);
        if i < self.entries.len() {
            Some(&self.entries[i].1)
        } else {
            None
        }
    }

    /// Keeps the page of a file, in place of the one that was kept before.
    pub fn insert(&mut self, path: Vec<u8>, file: CachedFile)
        ensures
            final(self)@ == old(self)@.insert(components(path@), file@),
    {
        proof {
            use_type_invariant(&*self);
        }
        let ghost key = components(path@);
        let ghost before = self.entries@;
        let mut entries: Vec<(Vec<u8>, CachedFile)> = Vec::new();
        std::mem::swap(&mut entries, &mut self.entries);
        let i = FileCache::place_of(&entries, path.as_slice());
        let ghost place = i as int;
        if i < entries.len() {
            entries.set(i, (path, file));
        } else {
            entries.push((path, file));
        }
        proof {
            assert forall|k: int| 0 <= k < before.len() implies #[trigger] key_at(entries@, k)
                == key_at(before, k) by {}
            assert(holds_at(entries@, key, place));
            assert forall|j: int, k: int| 0 <= j < k < entries@.len() implies #[trigger] key_at(
                entries@,
                j,
            ) != #[trigger] key_at(entries@, k) by {
                if k == before.len() {
                    assert(!holds_at(before, key, j));
                }
            }
            assert forall|other: Seq<Part>| #[trigger] pages(entries@).contains_key(other)
                == pages(before).insert(key, file@).contains_key(other) by {
                if pages(entries@).contains_key(other) && other != key {
                    let k = choose|k: int| holds_at(entries@, other, k);
                    assert(holds_at(before, other, k));
                }
                if pages(before).contains_key(other) {
                    let k = choose|k: int| holds_at(before, other, k);
                    assert(holds_at(entries@, other, k));
                }
            }
            assert forall|other: Seq<Part>| #[trigger]
                pages(entries@).contains_key(other) implies pages(entries@)[other] == pages(
                before,
            ).insert(key, file@)[other] by {
                let k = choose|k: int| holds_at(entries@, other, k);
                if other == key {
                    assert(k == place);
                } else {
                    assert(holds_at(before, other, k));
                    let j = choose|j: int| holds_at(before, other, j);
                    assert(j == k);
                }
            }
            assert(pages(entries@) =~= pages(before).insert(key, file@));
        }
        self.entries = entries;
    }
}

/// A kept page is known by the age of its file and its whole text.
pub proof fn law_kept_page_is_seen_whole(file: CachedFile)
    ensures
        file@.last_modified == file.last_modified,
        file@.html == file.cached_html@,
{
}

} // verus!
