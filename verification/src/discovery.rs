//! Finding the `dsh` program.
use crate::ascii::lemma_below;
use crate::path::{joined, optional_path, FsPath};
use vstd::prelude::*;
use vstd::utf8::encode_utf8;

verus! {

/// A directory of the package cache that may hold the program.
pub struct CacheEntry {
    /// Where the program would be.
    pub program: FsPath,
    /// Whether there is a file.
    pub is_file: bool,
    /// When that file was last modified, in nanoseconds from the Unix epoch, where that can be
    /// told.
    pub modified: Option<i128>,
}

impl CacheEntry {
    /// Whether the program is there and its age is known.
    pub open spec fn eligible(self) -> bool {
        self.is_file && self.modified is Some
    }
}

/// Whether entry `i` is the newest of the eligible entries, the first of them where several are
/// equally new.
pub open spec fn newest(entries: Seq<CacheEntry>, i: int) -> bool {
    &&& 0 <= i < entries.len()
    &&& entries[i].eligible()
    &&& forall|j: int|
        0 <= j < entries.len() && (#[trigger] entries[j]).eligible() ==> entries[j].modified->0
            <= entries[i].modified->0
    &&& forall|j: int|
        0 <= j < i && (#[trigger] entries[j]).eligible() ==> entries[j].modified->0
            < entries[i].modified->0
}

/// Where the program is below a directory of the package cache.
pub open spec fn in_cache_entry(dir: Seq<u8>) -> Seq<u8> {
    joined(dir, encode_utf8("node_modules/.bin/dsh"@))
}

/// The directory below a package manager's root whose entries are looked through.
pub open spec fn cache_below(root: Seq<u8>) -> Seq<u8> {
    joined(root, encode_utf8("_npx"@))
}

/// Whether `found` is the newest program in the package cache, or nothing where there is none.
pub open spec fn scanned(entries: Seq<CacheEntry>, found: Option<Seq<u8>>) -> bool {
    match found {
        Some(p) => exists|i: int| #[trigger] newest(entries, i) && entries[i].program@ == p,
        None => forall|i: int| 0 <= i < entries.len() ==> !(#[trigger] entries[i]).eligible(),
    }
}

/// Where the program is below a directory of the package cache.
pub fn cached_program(dir: &FsPath) -> (p: FsPath)
    ensures
        p@ == joined(dir@, encode_utf8("node_modules/.bin/dsh"@)),
        p@ == in_cache_entry(dir@),
{
    dir.join("node_modules/.bin/dsh")
}

/// The directory below a package manager's root whose entries are looked through.
pub fn cache_dir(root: &FsPath) -> (p: FsPath)
    ensures
        p@ == joined(root@, encode_utf8("_npx"@)),
        p@ == cache_below(root@),
{
    root.join("_npx")
}

/// The newest program in the package cache.
pub fn scan_npx_root(entries: &Vec<CacheEntry>) -> (r: Option<FsPath>)
    ensures
        match r {
            Some(p) => exists|i: int| #[trigger] newest(entries@, i) && entries@[i].program@ == p@,
            None => forall|i: int| 0 <= i < entries@.len() ==> !(#[trigger] entries@[i]).eligible(),
        },
        scanned(entries@, optional_path(r)),
{
    let mut best: Option<usize> = None;
    let mut best_time: i128 = 0;
    let mut i: usize = 0;
    while i < entries.len()
        invariant
            i <= entries@.len(),
            match best {
                Some(b) => {
                    &&& b < i
                    &&& newest(entries@.take(i as int), b as int)
                    &&& entries@[b as int].modified == Some(best_time)
                },
                None => forall|j: int| 0 <= j < i ==> !(#[trigger] entries@[j]).eligible(),
            },
        decreases entries@.len() - i,
    {
        let ghost seen = entries@.take(i as int);
        let ghost wider = entries@.take(i + 1);
        assert(forall|j: int| 0 <= j < i ==> seen[j] == #[trigger] wider[j]);
        if entries[i].is_file {
            match entries[i].modified {
                Some(t) => {
                    let better: bool = match best {
                        Some(_) => t > best_time,
                        None => true,
                    };
                    if better {
                        best = Some(i);
                        best_time = t;
                    }
                },
                None => {},
            }
        }
        i = i + 1;
        proof {
            if let Some(b) = best {
                assert(newest(wider, b as int));
            }
        }
    }
    assert(entries@.take(i as int) =~= entries@);
    match best {
        Some(b) => Some(entries[b].program.clone()),
        None => None,
    }
}

/// Whether `is_file` may give `answer` on a path that is spelt `path`.
pub open spec fn may_say<F: Fn(&FsPath) -> bool>(is_file: F, path: Seq<u8>, answer: bool) -> bool {
    exists|p: FsPath| p@ == path && #[trigger] is_file.ensures((&p,), answer)
}

/// Whether `scan` may give `answer` on a path that is spelt `path`.
pub open spec fn may_find<G: Fn(&FsPath) -> Option<FsPath>>(
    scan: G,
    path: Seq<u8>,
    answer: Option<FsPath>,
) -> bool {
    exists|p: FsPath| p@ == path && #[trigger] scan.ensures((&p,), answer)
}

/// Where the program would be in a directory of the search path.
pub open spec fn on_path(dir: FsPath) -> Seq<u8> {
    joined(dir@, encode_utf8("dsh"@))
}

/// Whether `r` is the program in the first directory of the search path that may have it, or else
/// what `scan` may find below the home directory.
pub open spec fn found<F: Fn(&FsPath) -> bool, G: Fn(&FsPath) -> Option<FsPath>>(
    search_path: Seq<FsPath>,
    home: Option<FsPath>,
    is_file: F,
    scan: G,
    r: Option<FsPath>,
) -> bool {
    ||| exists|i: int|
        0 <= i < search_path.len() && optional_path(r) == Some(
            on_path(#[trigger] search_path[i]),
        ) && may_say(is_file, on_path(search_path[i]), true) && forall|j: int|
            0 <= j < i ==> may_say(is_file, on_path(#[trigger] search_path[j]), false)
    ||| {
        &&& forall|j: int|
            0 <= j < search_path.len() ==> may_say(
                is_file,
                on_path(#[trigger] search_path[j]),
                false,
            )
        &&& match home {
            Some(h) => may_find(scan, joined(h@, encode_utf8(".npm"@)), r),
            None => r is None,
        }
    }
}

/// The program, looked for as its user would have installed it: first in the directories of the
/// search path, in their order; then in the package cache below the home directory.
///
/// `is_file` tells whether a path is that of a file, and `scan` gives the newest program in the
/// cache below a path.
pub fn find_dsh<F: Fn(&FsPath) -> bool, G: Fn(&FsPath) -> Option<FsPath>>(
    search_path: &Vec<FsPath>,
    home: &Option<FsPath>,
    is_file: F,
    scan: G,
) -> (r: Option<FsPath>)
    requires
        forall|p: &FsPath| is_file.requires((p,)),
        forall|p: &FsPath| scan.requires((p,)),
    ensures
        ({
            ||| exists|i: int|
                0 <= i < search_path@.len() && optional_path(r) == Some(
                    on_path(#[trigger] search_path@[i]),
                ) && may_say(is_file, on_path(search_path@[i]), true) && forall|j: int|
                    0 <= j < i ==> may_say(is_file, on_path(#[trigger] search_path@[j]), false)
            ||| {
                &&& forall|j: int|
                    0 <= j < search_path@.len() ==> may_say(
                        is_file,
                        on_path(#[trigger] search_path@[j]),
                        false,
                    )
                &&& match home {
                    Some(h) => may_find(scan, joined(h@, encode_utf8(".npm"@)), r),
                    None => r is None,
                }
            }
        }),
        found(search_path@, *home, is_file, scan, r),
{
    let mut i: usize = 0;
    while i < search_path.len()
        invariant
            i <= search_path@.len(),
            forall|p: &FsPath| is_file.requires((p,)),
            forall|j: int|
                0 <= j < i ==> may_say(is_file, on_path(#[trigger] search_path@[j]), false),
        decreases search_path@.len() - i,
    {
        let candidate = search_path[i].join("dsh");
        if is_file(&candidate) {
            assert(on_path(search_path@[i as int]) == candidate@);
            return Some(candidate);
        }
        i = i + 1;
    }
    match home {
        Some(h) => {
            let root = h.join(".npm");
            scan(&root)
        },
        None => None,
    }
}

/// Of the programs in the cache that are files of known age, one is found exactly if there is
/// any. None is newer than it, and of those that are equally new it is the first.
pub proof fn law_newest_cached_program_is_found(entries: Seq<CacheEntry>, found: Option<Seq<u8>>)
    requires
        scanned(entries, found),
    ensures
        found is None <==> forall|j: int|
            0 <= j < entries.len() ==> !((#[trigger] entries[j]).is_file
                && entries[j].modified is Some),
        found matches Some(p) ==> exists|i: int|
            {
                &&& 0 <= i < entries.len()
                &&& (#[trigger] entries[i]).program@ == p
                &&& entries[i].is_file
                &&& entries[i].modified is Some
                &&& forall|j: int|
                    0 <= j < entries.len() && (#[trigger] entries[j]).is_file
                        && entries[j].modified is Some ==> entries[j].modified->0
                        <= entries[i].modified->0 && (j < i ==> entries[j].modified->0
                        < entries[i].modified->0)
            },
{
    match found {
        Some(p) => {
            let i = choose|i: int| #[trigger] newest(entries, i) && entries[i].program@ == p;
            assert(entries[i].eligible());
            assert forall|j: int|
                0 <= j < entries.len() && (#[trigger] entries[j]).is_file
                    && entries[j].modified is Some implies entries[j].modified->0
                <= entries[i].modified->0 && (j < i ==> entries[j].modified->0
                < entries[i].modified->0) by {
                assert(entries[j].eligible());
            }
        },
        None => {
            assert forall|j: int| 0 <= j < entries.len() implies !((#[trigger] entries[j]).is_file
                && entries[j].modified is Some) by {
                assert(!entries[j].eligible());
            }
        },
    }
}

/// The places that are looked at, below a directory that does not end with a slash.
pub proof fn law_places_lie_below_their_directory(dir: FsPath)
    requires
        dir@.len() > 0,
        dir@.last() != 47,
    ensures
        on_path(dir) == dir@ + encode_utf8("/dsh"@),
        cache_below(dir@) == dir@ + encode_utf8("/_npx"@),
        in_cache_entry(dir@) == dir@ + encode_utf8("/node_modules/.bin/dsh"@),
{
    reveal_strlit("dsh");
    reveal_strlit("/dsh");
    reveal_strlit("_npx");
    reveal_strlit("/_npx");
    reveal_strlit("node_modules/.bin/dsh");
    reveal_strlit("/node_modules/.bin/dsh");
    lemma_below(dir@, "dsh"@, "/dsh"@);
    lemma_below(dir@, "_npx"@, "/_npx"@);
    lemma_below(dir@, "node_modules/.bin/dsh"@, "/node_modules/.bin/dsh"@);
}

/// The program is looked for where its user would have installed it. Where every path always
/// gets the same answers, it is the one in the first directory of the search path that has it.
/// Only where none has it, it is what the scan of `.npm` below the home directory finds.
pub proof fn law_search_path_comes_first<F: Fn(&FsPath) -> bool, G: Fn(&FsPath) -> Option<FsPath>>(
    search_path: Seq<FsPath>,
    home: Option<FsPath>,
    is_file: F,
    scan: G,
    r: Option<FsPath>,
    there: spec_fn(Seq<u8>) -> bool,
    cached: spec_fn(Seq<u8>) -> Option<Seq<u8>>,
)
    requires
        forall|p: FsPath, b: bool| #[trigger] is_file.ensures((&p,), b) ==> b == there(p@),
        forall|p: FsPath, f: Option<FsPath>| #[trigger]
            scan.ensures((&p,), f) ==> optional_path(f) == cached(p@),
        found(search_path, home, is_file, scan, r),
    ensures
        forall|i: int|
            {
                &&& 0 <= i < search_path.len()
                &&& there(joined((#[trigger] search_path[i])@, encode_utf8("dsh"@)))
                &&& forall|j: int|
                    0 <= j < i ==> !there(joined((#[trigger] search_path[j])@, encode_utf8("dsh"@)))
            } ==> optional_path(r) == Some(joined(search_path[i]@, encode_utf8("dsh"@))),
        (forall|j: int|
            0 <= j < search_path.len() ==> !there(
                joined((#[trigger] search_path[j])@, encode_utf8("dsh"@)),
            )) ==> optional_path(r) == match home {
            Some(h) => cached(joined(h@, encode_utf8(".npm"@))),
            None => None,
        },
{
    assert forall|path: Seq<u8>, b: bool| #[trigger] may_say(is_file, path, b) implies b == there(
        path,
    ) by {
        let p = choose|p: FsPath| p@ == path && #[trigger] is_file.ensures((&p,), b);
        assert(is_file.ensures((&p,), b));
    }
    if exists|i: int|
        0 <= i < search_path.len() && optional_path(r) == Some(on_path(#[trigger] search_path[i]))
            && may_say(is_file, on_path(search_path[i]), true) && forall|j: int|
            0 <= j < i ==> may_say(is_file, on_path(#[trigger] search_path[j]), false) {
        let k = choose|i: int|
            0 <= i < search_path.len() && optional_path(r) == Some(
                on_path(#[trigger] search_path[i]),
            ) && may_say(is_file, on_path(search_path[i]), true) && forall|j: int|
                0 <= j < i ==> may_say(is_file, on_path(#[trigger] search_path[j]), false);
        assert(there(on_path(search_path[k])));
        assert forall|i: int|
            {
                &&& 0 <= i < search_path.len()
                &&& there(joined((#[trigger] search_path[i])@, encode_utf8("dsh"@)))
                &&& forall|j: int|
                    0 <= j < i ==> !there(joined((#[trigger] search_path[j])@, encode_utf8("dsh"@)))
            } implies optional_path(r) == Some(joined(search_path[i]@, encode_utf8("dsh"@))) by {
            if k < i {
                assert(!there(joined(search_path[k]@, encode_utf8("dsh"@))));
            } else if i < k {
                assert(may_say(is_file, on_path(search_path[i]), false));
            }
        }
    } else {
        assert forall|j: int| 0 <= j < search_path.len() implies !there(
            joined((#[trigger] search_path[j])@, encode_utf8("dsh"@)),
        ) by {
            assert(may_say(is_file, on_path(search_path[j]), false));
        }
        if let Some(h) = home {
            let root = joined(h@, encode_utf8(".npm"@));
            let p = choose|p: FsPath| p@ == root && #[trigger] scan.ensures((&p,), r);
            assert(scan.ensures((&p,), r));
        }
    }
}

} // verus!
