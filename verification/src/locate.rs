//! Finding the reader's two databases.
//!
//! Each database lies in a directory of its own below the user's home
//! directory, under a name that is not known in advance but ends in
//! `.sqlite`. The caller lists the directory; this module says which
//! directory to list and which of the names found is the database. Where
//! several names qualify, the first in byte order is taken.

use vstd::prelude::*;
use vstd::string::*;
use vstd::utf8::encode_utf8;

use crate::errors::Errors;

verus! {

/// The directory of the annotation database, below the home directory.
pub const ANNOTATION_CONTAINER: &'static str =
    "Library/Containers/com.apple.iBooksX/Data/Documents/AEAnnotation";

/// The directory of the library database, below the home directory.
pub const LIBRARY_CONTAINER: &'static str =
    "Library/Containers/com.apple.iBooksX/Data/Documents/BKLibrary";

/// Whether a file of this name is a database: the name ends in `.sqlite`,
/// and the file's own name, which follows the last `/`, has something before
/// that ending.
pub open spec fn is_database_name(name: Seq<char>) -> bool {
    let ending = ".sqlite"@;
    let stem = name.len() - ending.len();
    &&& stem > 0
    &&& name.subrange(stem, name.len() as int) == ending
    &&& name[stem - 1] != '/'
}

/// Whether `a` comes before `b` in the order of their bytes: at the first
/// place where they differ `a` has the smaller byte, or `a` ends there.
pub open spec fn bytes_before(a: Seq<u8>, b: Seq<u8>) -> bool {
    exists|i: int|
        #![trigger a.take(i)]
        0 <= i <= a.len() && i < b.len() && a.take(i) == b.take(i) && (i < a.len() ==> a[i]
            < b[i])
}

/// Whether the name `a` comes before the name `b`: names are ordered as
/// their UTF-8 bytes are.
pub open spec fn name_before(a: Seq<char>, b: Seq<char>) -> bool {
    bytes_before(encode_utf8(a), encode_utf8(b))
}

/// The database among `names`: of the names that qualify, the one that comes
/// before the others; `None` where none qualifies.
pub open spec fn first_database(names: Seq<Seq<char>>) -> Option<Seq<char>>
    decreases names.len(),
{
    if names.len() == 0 {
        None
    } else {
        let earlier = first_database(names.drop_last());
        let name = names.last();
        if !is_database_name(name) {
            earlier
        } else {
            match earlier {
                Some(best) => if name_before(name, best) {
                    Some(name)
                } else {
                    Some(best)
                },
                None => Some(name),
            }
        }
    }
}

/// Whether the file called `name` is a database.
pub fn has_database_extension(name: &str) -> (yes: bool)
    ensures
        yes == is_database_name(name@),
{
    let ending = ".sqlite";
    proof {
        reveal_strlit(".sqlite");
    }
    let n = name.unicode_len();
    if n <= 7 {
        return false;
    }
    let stem = n - 7;
    if name.get_char(stem - 1) == '/' {
        return false;
    }
    let mut i: usize = 0;
    while i < 7
        invariant
            i <= 7,
            n == name@.len(),
            stem == n - 7,
            ending@ == ".sqlite"@,
            ending@.len() == 7,
            name@[stem - 1] != '/',
            forall|j: int| 0 <= j < i ==> name@[stem + j] == ending@[j],
        decreases 7 - i,
    {
        if name.get_char(stem + i) != ending.get_char(i) {
            assert(name@.subrange(stem as int, n as int)[i as int] != ending@[i as int]);
            return false;
        }
        i += 1;
    }
    assert(name@.subrange(stem as int, n as int) =~= ending@);
    true
}

/// Whether the name `a` comes before the name `b`.
pub fn comes_before(a: &str, b: &str) -> (yes: bool)
    ensures
        yes == name_before(a@, b@),
{
    let x = a.as_bytes();
    let y = b.as_bytes();
    let mut i: usize = 0;
    while i < x.len() && i < y.len()
        invariant
            i <= x.len(),
            i <= y.len(),
            x@ == encode_utf8(a@),
            y@ == encode_utf8(b@),
            x@.take(i as int) == y@.take(i as int),
        decreases x.len() - i,
    {
        if x[i] != y[i] {
            let less = x[i] < y[i];
            proof {
                if less {
                    assert(bytes_before(x@, y@));
                } else {
                    assert forall|k: int|
                        0 <= k <= x@.len() && k < y@.len() && #[trigger] x@.take(k) == y@.take(
                            k,
                        ) implies !(k < x@.len() ==> x@[k] < y@[k]) by {
                        if k > i {
                            assert(x@.take(k)[i as int] == y@.take(k)[i as int]);
                        } else if k < i {
                            assert(x@.take(i as int)[k] == y@.take(i as int)[k]);
                        }
                    }
                }
            }
            return less;
        }
        proof {
            assert(x@.take(i + 1) =~= x@.take(i as int).push(x@[i as int]));
            assert(y@.take(i + 1) =~= y@.take(i as int).push(y@[i as int]));
        }
        i += 1;
    }
    let shorter = x.len() < y.len();
    proof {
        if shorter {
            assert(bytes_before(x@, y@));
        } else {
            assert forall|k: int|
                0 <= k <= x@.len() && k < y@.len() && #[trigger] x@.take(k) == y@.take(
                    k,
                ) implies !(k < x@.len() ==> x@[k] < y@[k]) by {
                assert(x@.take(i as int)[k] == y@.take(i as int)[k]);
            }
        }
    }
    shorter
}

/// The path of the database in the directory `container` below `home`, given
/// the names of the files found there; `None` for the names where the
/// directory could not be listed.
pub open spec fn database_path(
    home: Seq<char>,
    container: Seq<char>,
    file_names: Option<Seq<Seq<char>>>,
) -> Option<Seq<char>> {
    match file_names {
        Some(names) => match first_database(names) {
            Some(name) => Some(home + "/"@ + container + "/"@ + name),
            None => None,
        },
        None => None,
    }
}

/// The order of bytes is transitive.
pub proof fn lemma_bytes_before_transitive(a: Seq<u8>, b: Seq<u8>, c: Seq<u8>)
    requires
        bytes_before(a, b),
        bytes_before(b, c),
    ensures
        bytes_before(a, c),
{
    let i = choose|i: int|
        #![trigger a.take(i)]
        0 <= i <= a.len() && i < b.len() && a.take(i) == b.take(i) && (i < a.len() ==> a[i]
            < b[i]);
    let j = choose|j: int|
        #![trigger b.take(j)]
        0 <= j <= b.len() && j < c.len() && b.take(j) == c.take(j) && (j < b.len() ==> b[j]
            < c[j]);
    let k = if i <= j {
        i
    } else {
        j
    };
    assert forall|m: int| 0 <= m < k implies a[m] == c[m] by {
        assert(a.take(i)[m] == b.take(i)[m]);
        assert(b.take(j)[m] == c.take(j)[m]);
    }
    assert(a.take(k) =~= c.take(k));
    if k < a.len() {
        if i < j {
            assert(b.take(j)[i] == c.take(j)[i]);
        } else if j < i {
            assert(a.take(i)[j] == b.take(i)[j]);
        }
    }
}

/// `first_database` names a file that was found and that is a database, and
/// no database that was found comes before it. It is `None` only where no
/// file that was found is a database.
pub proof fn lemma_first_database(names: Seq<Seq<char>>)
    ensures
        match first_database(names) {
            Some(best) => {
                &&& names.contains(best)
                &&& is_database_name(best)
                &&& forall|j: int|
                    0 <= j < names.len() && is_database_name(#[trigger] names[j]) ==> !name_before(
                        names[j],
                        best,
                    )
            },
            None => forall|j: int| 0 <= j < names.len() ==> !is_database_name(#[trigger] names[j]),
        },
    decreases names.len(),
{
    if names.len() > 0 {
        let front = names.drop_last();
        let name = names.last();
        lemma_first_database(front);
        assert(names[names.len() - 1] == name);
        assert forall|j: int| 0 <= j < front.len() implies front[j] == names[j] by {}
        match first_database(names) {
            Some(best) => {
                if first_database(front) == Some(best) {
                    let k = choose|k: int| 0 <= k < front.len() && front[k] == best;
                    assert(names[k] == best);
                }
                assert forall|j: int|
                    0 <= j < names.len() && is_database_name(
                        #[trigger] names[j],
                    ) implies !name_before(names[j], best) by {
                    if name_before(names[j], best) {
                        if j < front.len() {
                            let earlier = first_database(front)->0;
                            assert(front[j] == names[j]);
                            lemma_bytes_before_transitive(
                                encode_utf8(names[j]),
                                encode_utf8(best),
                                encode_utf8(earlier),
                            );
                        } else {
                            lemma_bytes_before_irreflexive(encode_utf8(best));
                        }
                    }
                }
            },
            None => {},
        }
    }
}

/// No sequence of bytes comes before itself.
pub proof fn lemma_bytes_before_irreflexive(a: Seq<u8>)
    ensures
        !bytes_before(a, a),
{
}

/// The place in `names` of the database among them.
fn pick_database(names: &Vec<String>) -> (found: Option<usize>)
    ensures
        match found {
            Some(k) => k < names.len() && first_database(names.deep_view()) == Some(names[k as int]@),
            None => first_database(names.deep_view()) is None,
        },
{
    let mut best: Option<usize> = None;
    let mut i: usize = 0;
    while i < names.len()
        invariant
            i <= names.len(),
            match best {
                Some(k) => k < i && first_database(names.deep_view().take(i as int)) == Some(
                    names[k as int]@,
                ),
                None => first_database(names.deep_view().take(i as int)) is None,
            },
        decreases names.len() - i,
    {
        proof {
            let after = names.deep_view().take(i + 1);
            assert(after.drop_last() =~= names.deep_view().take(i as int));
            assert(after.last() == names[i as int]@);
        }
        if has_database_extension(names[i].as_str()) {
            best = match best {
                Some(k) => if comes_before(names[i].as_str(), names[k].as_str()) {
                    Some(i)
                } else {
                    Some(k)
                },
                None => Some(i),
            };
        }
        i += 1;
    }
    proof {
        assert(names.deep_view().take(names.len() as int) =~= names.deep_view());
    }
    best
}

/// Finds the database in the directory `container` below the home directory.
///
/// `home` is the home directory, `None` where the system knows none;
/// `file_names` are the names of the files in that directory, `None` where it
/// is not there or cannot be read. The result is the path of the database,
/// `Ok(None)` where there is none, and `NoHomeDir` without a home directory.
pub fn locate_database(
    home: &Option<String>,
    container: &str,
    file_names: &Option<Vec<String>>,
) -> (r: Result<Option<String>, Errors>)
    ensures
        home is None ==> r == Err::<Option<String>, Errors>(Errors::NoHomeDir),
        home matches Some(h) ==> r matches Ok(found) && found.deep_view() == database_path(
            h@,
            container@,
            file_names.deep_view(),
        ),
{
    let dir = match home {
        Some(h) => h,
        None => { return Err(Errors::NoHomeDir); },
    };
    let names = match file_names {
        Some(names) => names,
        None => { return Ok(None); },
    };
    match pick_database(names) {
        Some(k) => {
            let mut path = dir.clone();
            path.append("/");
            path.append(container);
            path.append("/");
            path.append(names[k].as_str());
            Ok(Some(path))
        },
        None => Ok(None),
    }
}

/// Finds the database of annotations, given the names of the files in
/// [`ANNOTATION_CONTAINER`].
pub fn locate_annotation_database(home: &Option<String>, file_names: &Option<Vec<String>>) -> (r:
    Result<Option<String>, Errors>)
    ensures
        home is None ==> r == Err::<Option<String>, Errors>(Errors::NoHomeDir),
        home matches Some(h) ==> r matches Ok(found) && found.deep_view() == database_path(
            h@,
            ANNOTATION_CONTAINER@,
            file_names.deep_view(),
        ),
{
    locate_database(home, ANNOTATION_CONTAINER, file_names)
}

/// Finds the database of the library, which holds the books' titles, given
/// the names of the files in [`LIBRARY_CONTAINER`].
pub fn locate_library_database(home: &Option<String>, file_names: &Option<Vec<String>>) -> (r:
    Result<Option<String>, Errors>)
    ensures
        home is None ==> r == Err::<Option<String>, Errors>(Errors::NoHomeDir),
        home matches Some(h) ==> r matches Ok(found) && found.deep_view() == database_path(
            h@,
            LIBRARY_CONTAINER@,
            file_names.deep_view(),
        ),
{
    locate_database(home, LIBRARY_CONTAINER, file_names)
}

/// The paths of the two databases.
pub struct DatabasePaths {
    /// The database of annotations.
    pub annotation_db: String,
    /// The database of the library, which holds the books' titles.
    pub library_db: String,
}

/// Both databases, or `NoDbFound` where either was not found: without both
/// there is nothing to export.
pub fn require_databases(annotation_db: Option<String>, library_db: Option<String>) -> (r: Result<
    DatabasePaths,
    Errors,
>)
    ensures
        match r {
            Ok(paths) => annotation_db == Some(paths.annotation_db) && library_db == Some(
                paths.library_db,
            ),
            Err(e) => e == Errors::NoDbFound && (annotation_db is None || library_db is None),
        },
{
    match (annotation_db, library_db) {
        (Some(annotation_db), Some(library_db)) => Ok(DatabasePaths { annotation_db, library_db }),
        _ => Err(Errors::NoDbFound),
    }
}

} // verus!
