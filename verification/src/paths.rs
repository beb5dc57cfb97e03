//! Where per-user files live.
//!
//! A path is a byte string, as the operating system has it. A directory
//! variable counts as unset when it is empty.
use vstd::prelude::*;

#[allow(unused_imports)]
use vstd::string::StringSliceAdditionalSpecFns;
#[allow(unused_imports)]
use vstd::utf8::encode_utf8;

verus! {

/// The separator between the components of a path.
pub const SEPARATOR: u8 = 0x2f;

/// Neither the variable for the base directory nor the one for the home
/// directory is set.
#[derive(Debug, Clone, Copy, PartialEq, Eq, Structural)]
pub struct NoBaseDir;

/// A path followed by a relative component, with exactly one separator between
/// them unless the path already ends in one.
pub open spec fn joined(base: Seq<u8>, component: Seq<u8>) -> Seq<u8> {
    if base.len() > 0 && base.last() != SEPARATOR {
        base.push(SEPARATOR) + component
    } else {
        base + component
    }
}

/// A variable that is set to something.
pub open spec fn is_set(variable: Option<Vec<u8>>) -> bool {
    variable matches Some(value) && value@.len() > 0
}

/// The base directory: the preferred one if it is set, else `fallback` under the
/// home directory.
pub open spec fn base_dir(
    preferred: Option<Vec<u8>>,
    home: Option<Vec<u8>>,
    fallback: Seq<u8>,
) -> Option<Seq<u8>> {
    if is_set(preferred) {
        Some(preferred->0@)
    } else if is_set(home) {
        Some(joined(home->0@, fallback))
    } else {
        None
    }
}

/// A file in this program's own directory under the base directory.
pub open spec fn user_file(
    preferred: Option<Vec<u8>>,
    home: Option<Vec<u8>>,
    fallback: Seq<u8>,
    name: Seq<u8>,
) -> Option<Seq<u8>> {
    match base_dir(preferred, home, fallback) {
        Some(base) => Some(joined(joined(base, encode_utf8("kibad"@)), name)),
        None => None,
    }
}

/// An equal copy of a byte string.
fn copy_bytes(bytes: &Vec<u8>) -> (copy: Vec<u8>)
    ensures
        copy@ == bytes@,
{
    let mut copy: Vec<u8> = Vec::new();
    copy.extend_from_slice(bytes.as_slice());
    assert(copy@ =~= bytes@);
    copy
}

/// Appends a relative component to a path.
pub fn join(base: &Vec<u8>, component: &str) -> (path: Vec<u8>)
    ensures
        path@ == joined(base@, encode_utf8(component@)),
{
    let mut path: Vec<u8> = copy_bytes(base);
    if path.len() > 0 && path[path.len() - 1] != SEPARATOR {
        path.push(SEPARATOR);
    }
    let ghost prefix = path@;
    path.extend_from_slice(component.as_bytes());
    assert(path@ =~= prefix + encode_utf8(component@));
    path
}

/// The path of a file in this program's own directory, from the values of the
/// variables that name the base directory and the home directory.
pub fn user_file_path(
    preferred: &Option<Vec<u8>>,
    home: &Option<Vec<u8>>,
    fallback: &str,
    name: &str,
) -> (path: Option<Vec<u8>>)
    ensures
        match path {
            Some(p) => user_file(
                *preferred,
                *home,
                encode_utf8(fallback@),
                encode_utf8(name@),
            ) == Some(p@),
            None => user_file(*preferred, *home, encode_utf8(fallback@), encode_utf8(name@)) is None,
        },
{
    let mut base: Option<Vec<u8>> = None;
    if let Some(dir) = preferred {
        if dir.len() > 0 {
            base = Some(copy_bytes(dir));
        }
    }
    if base.is_none() {
        if let Some(dir) = home {
            if dir.len() > 0 {
                base = Some(join(dir, fallback));
            }
        }
    }
    match base {
        Some(dir) => Some(join(&join(&dir, "kibad"), name)),
        None => None,
    }
}

/// A file path always ends in the program's directory and the file's own name.
pub proof fn law_user_file_is_under_kibad(
    preferred: Option<Vec<u8>>,
    home: Option<Vec<u8>>,
    fallback: Seq<u8>,
    name: Seq<u8>,
)
    requires
        is_set(preferred) || is_set(home),
    ensures
        user_file(preferred, home, fallback, name) matches Some(path) && exists|dir: Seq<u8>|
            path == #[trigger] (dir + encode_utf8("kibad/"@) + name),
{
    let base = base_dir(preferred, home, fallback)->0;
    let dir = if base.len() > 0 && base.last() != SEPARATOR {
        base.push(SEPARATOR)
    } else {
        base
    };
    lemma_program_dir();
    let word = encode_utf8("kibad"@);
    let path = user_file(preferred, home, fallback, name)->0;
    assert(joined(base, word) =~= dir + word);
    assert((dir + word).last() == word.last());
    assert(path =~= dir + encode_utf8("kibad/"@) + name);
}

proof fn lemma_program_dir()
    ensures
        encode_utf8("kibad"@).len() == 5,
        encode_utf8("kibad"@).last() != SEPARATOR,
        encode_utf8("kibad/"@) == encode_utf8("kibad"@).push(SEPARATOR),
{
    reveal_strlit("kibad");
    reveal_strlit("kibad/");
    vstd::utf8::is_ascii_chars_encode_utf8("kibad"@);
    vstd::utf8::is_ascii_chars_encode_utf8("kibad/"@);
    assert(encode_utf8("kibad/"@) =~= encode_utf8("kibad"@).push(SEPARATOR));
}

/// Joining keeps the path in front and the component at the end, with nothing
/// between them but a separator where one is missing.
pub proof fn law_join_keeps_both_parts(base: Seq<u8>, component: Seq<u8>)
    ensures
        base.len() == 0 ==> joined(base, component) == component,
        base.len() > 0 && base.last() == 0x2f ==> joined(base, component) == base + component,
        base.len() > 0 && base.last() != 0x2f ==> joined(base, component) == base + seq![0x2fu8]
            + component,
{
    assert(base.len() == 0 ==> joined(base, component) =~= component);
    assert(base.len() > 0 && base.last() != 0x2f ==> joined(base, component) =~= base
        + seq![0x2fu8] + component);
}

/// The preferred directory is used whenever it is set to something, whatever the
/// home directory is; else the fallback under the home directory; and without
/// either there is no path.
pub proof fn law_preferred_directory_comes_first(
    preferred: Option<Vec<u8>>,
    home: Option<Vec<u8>>,
    fallback: Seq<u8>,
    name: Seq<u8>,
)
    ensures
        ({
            let path = user_file(preferred, home, fallback, name);
            let dir_set = preferred is Some && preferred->0@.len() > 0;
            let home_set = home is Some && home->0@.len() > 0;
            &&& dir_set ==> path is Some && preferred->0@.is_prefix_of(path->0)
            &&& !dir_set && home_set ==> path is Some && joined(home->0@, fallback).is_prefix_of(
                path->0,
            )
            &&& !dir_set && !home_set ==> path is None
        }),
{
    let word = encode_utf8("kibad"@);
    if is_set(preferred) {
        lemma_join_prefix(preferred->0@, word);
        lemma_join_prefix(joined(preferred->0@, word), name);
        let path = joined(joined(preferred->0@, word), name);
        assert(preferred->0@ =~= path.subrange(0, preferred->0@.len() as int));
    } else if is_set(home) {
        let base = joined(home->0@, fallback);
        lemma_join_prefix(base, word);
        lemma_join_prefix(joined(base, word), name);
        let path = joined(joined(base, word), name);
        assert(base =~= path.subrange(0, base.len() as int));
    }
}

proof fn lemma_join_prefix(base: Seq<u8>, component: Seq<u8>)
    ensures
        base.len() <= joined(base, component).len(),
        forall|i: int| 0 <= i < base.len() ==> #[trigger] joined(base, component)[i] == base[i],
{
}

} // verus!
