//! Locating the store directory and turning its files into entry names.
//!
//! The store lives at `<home>/.password-store/` and holds one encrypted file
//! per entry, named `<entry>.gpg`. Listing keeps only the regular files among
//! the directory's direct children and shows each one under its entry name:
//! the path with the store-directory prefix and the encrypted-file suffix
//! removed. The caller performs the directory walk and hands in, for each
//! child, its path and whether it is a regular file.

use vstd::prelude::*;
use crate::errors::PassError;

verus! {

/// The fixed path fragment appended to the home directory to locate the store.
pub open spec fn store_dir_fragment() -> Seq<char> {
    "/.password-store/"@
}

/// The fixed extension of an encrypted entry file.
pub open spec fn entry_extension() -> Seq<char> {
    ".gpg"@
}

/// The store directory belonging to the given home directory.
pub open spec fn store_dir_of(home: Seq<char>) -> Seq<char> {
    home + store_dir_fragment()
}

/// Resolve the store directory from the home directory, or report the
/// missing configuration. `home` is `None` exactly when the environment
/// offered no home directory; in that case no directory is produced at all.
pub fn store_location(home: Option<String>) -> (r: Result<String, PassError>)
    ensures
        match home {
            Some(h) => r matches Ok(d) && d@ == store_dir_of(h@),
            None => r matches Err(e) && e is Configuration,
        },
{
    match home {
        Some(h) => Ok(h.concat("/.password-store/")),
        None => Err(PassError::Configuration),
    }
}

/// True when `p` is a prefix of `s`, compared character by character.
pub fn str_has_prefix(s: &str, p: &str) -> (r: bool)
    ensures
        r == p@.is_prefix_of(s@),
{
    let sl = s.unicode_len();
    let pl = p.unicode_len();
    if pl > sl {
        return false;
    }
    let mut i: usize = 0;
    while i < pl
        invariant
            0 <= i <= pl,
            pl <= sl,
            pl == p@.len(),
            sl == s@.len(),
            forall|j: int| 0 <= j < i ==> s@[j] == p@[j],
        decreases pl - i,
    {
        if s.get_char(i) != p.get_char(i) {
            assert(!p@.is_prefix_of(s@));
            return false;
        }
        i = i + 1;
    }
    assert(p@ =~= s@.subrange(0, pl as int));
    true
}

/// True when `x` is a suffix of `s`, compared character by character.
pub fn str_has_suffix(s: &str, x: &str) -> (r: bool)
    ensures
        r == x@.is_suffix_of(s@),
{
    let sl = s.unicode_len();
    let xl = x.unicode_len();
    if xl > sl {
        return false;
    }
    let base = sl - xl;
    let mut i: usize = 0;
    while i < xl
        invariant
            0 <= i <= xl,
            xl <= sl,
            base == sl - xl,
            xl == x@.len(),
            sl == s@.len(),
            forall|j: int| 0 <= j < i ==> s@[base + j] == x@[j],
        decreases xl - i,
    {
        if s.get_char(base + i) != x.get_char(i) {
            assert(!x@.is_suffix_of(s@));
            return false;
        }
        i = i + 1;
    }
    assert(x@ =~= s@.subrange(sl - xl, sl as int));
    true
}

/// `s` with `p` removed from its front when `p` is a prefix, else `s` unchanged.
pub open spec fn strip_prefix(s: Seq<char>, p: Seq<char>) -> Seq<char> {
    if p.is_prefix_of(s) {
        s.skip(p.len() as int)
    } else {
        s
    }
}

/// `s` with `x` removed from its end when `x` is a suffix, else `s` unchanged.
pub open spec fn strip_suffix(s: Seq<char>, x: Seq<char>) -> Seq<char> {
    if x.is_suffix_of(s) {
        s.take(s.len() - x.len())
    } else {
        s
    }
}

/// The entry name shown for a file at `path` under the store directory `dir`:
/// the path with the directory prefix and the encrypted-file extension removed.
pub open spec fn entry_name_of(path: Seq<char>, dir: Seq<char>) -> Seq<char> {
    strip_suffix(strip_prefix(path, dir), entry_extension())
}

/// Compute the entry name for a file at `path` under the store directory `dir`.
pub fn entry_name(path: &str, dir: &str) -> (r: String)
    ensures
        r@ == entry_name_of(path@, dir@),
{
    let rest: &str = if str_has_prefix(path, dir) {
        let cut = path.substring_char(dir.unicode_len(), path.unicode_len());
        assert(cut@ =~= strip_prefix(path@, dir@));
        cut
    } else {
        path
    };
    let ext = ".gpg";
    if str_has_suffix(rest, ext) {
        let rl = rest.unicode_len();
        let name = rest.substring_char(0, rl - ext.unicode_len());
        assert(name@ =~= strip_suffix(rest@, ext@));
        String::from_str(name)
    } else {
        String::from_str(rest)
    }
}

/// What the listing needs of one direct child of the store directory: its
/// path as the directory walk shows it, and whether it is a regular file.
pub struct StoreEntry {
    pub path: String,
    pub is_file: bool,
}

/// The names listed for the given directory children, in walk order: one name
/// per regular file, directories and other non-files silently excluded.
pub open spec fn listed_names(entries: Seq<StoreEntry>, dir: Seq<char>) -> Seq<Seq<char>>
    decreases entries.len(),
{
    if entries.len() == 0 {
        Seq::empty()
    } else {
        let rest = listed_names(entries.drop_last(), dir);
        let e = entries.last();
        if e.is_file {
            rest.push(entry_name_of(e.path@, dir))
        } else {
            rest
        }
    }
}

/// Compute the entry names for the given directory children, in walk order.
pub fn entry_names(dir: &str, entries: &Vec<StoreEntry>) -> (r: Vec<String>)
    ensures
        r.deep_view() == listed_names(entries@, dir@),
{
    let mut out: Vec<String> = Vec::new();
    let mut i: usize = 0;
    while i < entries.len()
        invariant
            0 <= i <= entries@.len(),
            out.deep_view() == listed_names(entries@.take(i as int), dir@),
        decreases entries@.len() - i,
    {
        let ghost prefix = entries@.take(i as int);
        let ghost step = entries@.take(i as int + 1);
        proof {
            assert(step.drop_last() =~= prefix);
            assert(step.last() == entries@[i as int]);
        }
        let e = &entries[i];
        if e.is_file {
            let name = entry_name(e.path.as_str(), dir);
            let ghost before = out.deep_view();
            out.push(name);
            proof {
                assert(out.deep_view() =~= before.push(name@));
            }
        }
        proof {
            assert(out.deep_view() == listed_names(step, dir@));
        }
        i = i + 1;
    }
    proof {
        assert(entries@.take(entries@.len() as int) =~= entries@);
    }
    out
}

/// The listing outcome, given the store directory and what the directory walk
/// produced: the names of the regular files, or the walk's own error text as
/// a reported, recoverable error.
pub fn list_entries(dir: &str, walk: Result<Vec<StoreEntry>, String>) -> (r: Result<
    Vec<String>,
    PassError,
>)
    ensures
        match walk {
            Ok(children) => r matches Ok(names) && names.deep_view() == listed_names(
                children@,
                dir@,
            ),
            Err(m) => r matches Err(e) && (e matches PassError::StoreUnreadable(t) && t@ == m@),
        },
{
    match walk {
        Ok(children) => Ok(entry_names(dir, &children)),
        Err(m) => Err(PassError::StoreUnreadable(m)),
    }
}

/// The set of names a walk's children give rise to: a name belongs to it
/// exactly when some regular file among the children bears it.
pub open spec fn name_set(entries: Seq<StoreEntry>, dir: Seq<char>) -> Set<Seq<char>> {
    Set::new(
        |n: Seq<char>|
            exists|i: int|
                0 <= i < entries.len() && entries[i].is_file && entry_name_of(
                    entries[i].path@,
                    dir,
                ) == n,
    )
}

/// Law: ignoring order, the listed names are exactly the names of the
/// regular files among the directory's children, each with the directory
/// prefix and the encrypted-file extension removed; non-files contribute
/// nothing.
pub proof fn lemma_listed_names_are_file_names(entries: Seq<StoreEntry>, dir: Seq<char>)
    ensures
        listed_names(entries, dir).to_set() == name_set(entries, dir),
    decreases entries.len(),
{
    broadcast use vstd::set::group_set_axioms;

    if entries.len() == 0 {
        assert(listed_names(entries, dir).to_set() =~= name_set(entries, dir));
    } else {
        let rest = entries.drop_last();
        let last = entries.last();
        lemma_listed_names_are_file_names(rest, dir);
        assert forall|n: Seq<char>| #[trigger]
            listed_names(entries, dir).to_set().contains(n) implies name_set(
            entries,
            dir,
        ).contains(n) by {
            let names = listed_names(entries, dir);
            let k = choose|k: int| 0 <= k < names.len() && names[k] == n;
            if last.is_file && k == names.len() - 1 {
                assert(entries[entries.len() - 1].is_file && entry_name_of(
                    entries[entries.len() - 1].path@,
                    dir,
                ) == n);
            } else {
                assert(listed_names(rest, dir).to_set().contains(n));
                let i = choose|i: int|
                    0 <= i < rest.len() && rest[i].is_file && entry_name_of(rest[i].path@, dir)
                        == n;
                assert(entries[i].is_file && entry_name_of(entries[i].path@, dir) == n);
            }
        }
        assert forall|n: Seq<char>| #[trigger] name_set(entries, dir).contains(n) implies
            listed_names(entries, dir).to_set().contains(n) by {
            let i = choose|i: int|
                0 <= i < entries.len() && entries[i].is_file && entry_name_of(
                    entries[i].path@,
                    dir,
                ) == n;
            let names = listed_names(entries, dir);
            if i == entries.len() - 1 {
                assert(names[names.len() - 1] == n);
            } else {
                assert(rest[i].is_file && entry_name_of(rest[i].path@, dir) == n);
                assert(listed_names(rest, dir).to_set().contains(n));
                let k = choose|k: int|
                    0 <= k < listed_names(rest, dir).len() && listed_names(rest, dir)[k] == n;
                assert(names[k] == n);
            }
        }
        assert(listed_names(entries, dir).to_set() =~= name_set(entries, dir));
    }
}

/// Law: listing is idempotent and blind to walk order. Two walks that see
/// the same children, in whatever order and multiplicity, list the same set
/// of names; in particular, repeated walks of an unchanged directory do.
pub proof fn lemma_listing_idempotent(e1: Seq<StoreEntry>, e2: Seq<StoreEntry>, dir: Seq<char>)
    requires
        e1.to_set() == e2.to_set(),
    ensures
        listed_names(e1, dir).to_set() == listed_names(e2, dir).to_set(),
{
    broadcast use vstd::set::group_set_axioms;

    lemma_listed_names_are_file_names(e1, dir);
    lemma_listed_names_are_file_names(e2, dir);
    assert forall|n: Seq<char>| #[trigger] name_set(e1, dir).contains(n) implies name_set(
        e2,
        dir,
    ).contains(n) by {
        let i = choose|i: int|
            0 <= i < e1.len() && e1[i].is_file && entry_name_of(e1[i].path@, dir) == n;
        assert(e1.to_set().contains(e1[i]));
        assert(e2.contains(e1[i]));
        let j = choose|j: int| 0 <= j < e2.len() && e2[j] == e1[i];
        assert(e2[j].is_file && entry_name_of(e2[j].path@, dir) == n);
    }
    assert forall|n: Seq<char>| #[trigger] name_set(e2, dir).contains(n) implies name_set(
        e1,
        dir,
    ).contains(n) by {
        let i = choose|i: int|
            0 <= i < e2.len() && e2[i].is_file && entry_name_of(e2[i].path@, dir) == n;
        assert(e2.to_set().contains(e2[i]));
        assert(e1.contains(e2[i]));
        let j = choose|j: int| 0 <= j < e1.len() && e1[j] == e2[i];
        assert(e1[j].is_file && entry_name_of(e1[j].path@, dir) == n);
    }
    assert(name_set(e1, dir) =~= name_set(e2, dir));
}

} // verus!
