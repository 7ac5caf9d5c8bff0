//! Checks on the environment handed to a shell: variables that let another
//! library be loaded into it are removed, and the search path is checked
//! for control characters.
use vstd::prelude::*;

use std::collections::HashMap;
use std::path::PathBuf;

use crate::text::{find_char, inserted_all, pairs_read_as, push_str};
use vstd::std_specs::hash::obeys_key_model;

verus! {

/// A file-system path, carried through as an opaque value.
#[verifier::external_type_specification]
#[verifier::external_body]
pub struct ExPathBuf(PathBuf);

/// Why an environment was refused.
#[derive(Debug)]
pub enum EnvValidationError {
    /// A variable holds a dangerous value.
    DangerousValue { key: String, value: String },
    /// A path does not exist.
    PathNotFound { path: PathBuf },
    /// A path cannot be accessed.
    PathNotAccessible { path: PathBuf },
}

/// Whether `c` must not occur in a search-path entry.
pub open spec fn is_control_in_path(c: char) -> bool {
    c == '\0' || c == '\n'
}

/// Whether an entry of the search path holds a forbidden character.
pub open spec fn is_bad_entry(e: Seq<char>) -> bool {
    exists|i: int| 0 <= i < e.len() && is_control_in_path(e[i])
}

/// The first `:`-separated entry of `path` that holds a forbidden character.
pub open spec fn first_bad_entry(path: Seq<char>) -> Option<Seq<char>>
    decreases path.len(),
{
    let entry = match crate::text::first_index_of(path, ':') {
        Some(i) => path.take(i),
        None => path,
    };
    if is_bad_entry(entry) {
        Some(entry)
    } else {
        match crate::text::first_index_of(path, ':') {
            Some(i) => {
                proof {
                    crate::text::lemma_index_from(path, ':', 0);
                }
                first_bad_entry(path.skip(i + 1))
            },
            None => None,
        }
    }
}

/// The variables that are removed: those that make a program load other
/// libraries (`LD_PRELOAD`, `LD_LIBRARY_PATH`, `DYLD_INSERT_LIBRARIES`,
/// `DYLD_LIBRARY_PATH`).
pub open spec fn is_dangerous_var(name: Seq<char>) -> bool {
    ||| name == "LD_PRELOAD"@
    ||| name == "LD_LIBRARY_PATH"@
    ||| name == "DYLD_INSERT_LIBRARIES"@
    ||| name == "DYLD_LIBRARY_PATH"@
}

/// Whether an entry holds `\0` or a newline.
fn entry_is_bad(e: &str) -> (r: bool)
    ensures
        r == is_bad_entry(e@),
{
    let n = e.unicode_len();
    let mut i: usize = 0;
    while i < n
        invariant
            n == e@.len(),
            i <= n,
            forall|k: int| 0 <= k < i ==> !is_control_in_path(#[trigger] e@[k]),
        decreases n - i,
    {
        let c = e.get_char(i);
        if c == '\0' || c == '\n' {
            return true;
        }
        i = i + 1;
    }
    false
}

/// Checks the search path: refused, with the entry, where an entry holds
/// `\0` or a newline.
pub fn validate_path_var(path: &str) -> (r: Result<(), EnvValidationError>)
    ensures
        r is Ok <==> first_bad_entry(path@) is None,
        r matches Err(e) ==> (e matches EnvValidationError::DangerousValue { key, value } && key@ == "PATH"@
            && Some(value@) == first_bad_entry(path@)),
    decreases path@.len(),
{
    let n = path.unicode_len();
    let found = find_char(path, ':');
    let entry = match found {
        Some(i) => path.substring_char(0, i),
        None => path,
    };
    proof {
        match found {
            Some(i) => {
                assert(entry@ =~= path@.take(i as int));
            },
            None => {},
        }
    }
    if entry_is_bad(entry) {
        let mut key = String::new();
        push_str(&mut key, "PATH");
        let mut value = String::new();
        push_str(&mut value, entry);
        assert(key@ =~= "PATH"@);
        return Err(EnvValidationError::DangerousValue { key, value });
    }
    match found {
        Some(i) => {
            let rest = path.substring_char(i + 1, n);
            assert(rest@ =~= path@.skip(i + 1));
            validate_path_var(rest)
        },
        None => Ok(()),
    }
}

/// Whether `r` is the outcome of checking the search path `path` (see
/// `validate_path_var`).
pub open spec fn path_checked(path: Seq<char>, r: Result<(), EnvValidationError>) -> bool {
    &&& (r is Ok <==> first_bad_entry(path) is None)
    &&& r matches Err(e) ==> (e matches EnvValidationError::DangerousValue { key, value } && key@ == "PATH"@
        && Some(value@) == first_bad_entry(path))
}

/// Whether `after` and `r` are what checking the environment `before` gives,
/// with `ks` the keys used: the four dangerous variables (see
/// `is_dangerous_var`) removed, then the search path (key `ks[4]`, `PATH`)
/// checked where it is set.
pub open spec fn env_checked(
    before: Map<String, String>,
    after: Map<String, String>,
    r: Result<(), EnvValidationError>,
    ks: Seq<String>,
) -> bool {
    &&& ks.len() == 5
    &&& ks[0]@ == "LD_PRELOAD"@
    &&& ks[1]@ == "LD_LIBRARY_PATH"@
    &&& ks[2]@ == "DYLD_INSERT_LIBRARIES"@
    &&& ks[3]@ == "DYLD_LIBRARY_PATH"@
    &&& ks[4]@ == "PATH"@
    &&& after == before.remove(ks[0]).remove(ks[1]).remove(ks[2]).remove(ks[3])
    &&& if after.contains_key(ks[4]) {
        path_checked(after[ks[4]]@, r)
    } else {
        r is Ok
    }
}

/// Removes the dangerous variables (see `is_dangerous_var`) and checks the
/// search path `PATH`, if set (see `env_checked`).
pub fn validate_env_vars(env: &mut HashMap<String, String>) -> (r: Result<(), EnvValidationError>)
    ensures
        r matches Err(e) ==> e is DangerousValue,
        obeys_key_model::<String>() ==> exists|ks: Seq<String>| #[trigger] env_checked(old(env)@, final(env)@, r, ks),
{
    let k0 = "LD_PRELOAD".to_owned();
    let k1 = "LD_LIBRARY_PATH".to_owned();
    let k2 = "DYLD_INSERT_LIBRARIES".to_owned();
    let k3 = "DYLD_LIBRARY_PATH".to_owned();
    let kp = "PATH".to_owned();
    let _ = env.remove(&k0);
    let _ = env.remove(&k1);
    let _ = env.remove(&k2);
    let _ = env.remove(&k3);
    let r = match env.get(&kp) {
        Some(path) => validate_path_var(path.as_str()),
        None => Ok(()),
    };
    proof {
        reveal_strlit("LD_PRELOAD");
        reveal_strlit("LD_LIBRARY_PATH");
        reveal_strlit("DYLD_INSERT_LIBRARIES");
        reveal_strlit("DYLD_LIBRARY_PATH");
        reveal_strlit("PATH");
        let ks = seq![k0, k1, k2, k3, kp];
        if obeys_key_model::<String>() {
            assert(env_checked(old(env)@, env@, r, ks));
        }
    }
    r
}

/// The variables a shell is started with by default, as name and value:
/// `TERM=xterm-256color`, `COLORTERM=truecolor`, `TERM_PROGRAM=zterm` and
/// `TERM_PROGRAM_VERSION` set to the library's version.
pub fn safe_default_env_entries() -> (v: Vec<(String, String)>)
    ensures
        v@.len() == 4,
        v@[0].0@ == "TERM"@ && v@[0].1@ == "xterm-256color"@,
        v@[1].0@ == "COLORTERM"@ && v@[1].1@ == "truecolor"@,
        v@[2].0@ == "TERM_PROGRAM"@ && v@[2].1@ == "zterm"@,
        v@[3].0@ == "TERM_PROGRAM_VERSION"@ && v@[3].1@ == crate::VERSION@,
{
    let mut v: Vec<(String, String)> = Vec::new();
    v.push(("TERM".to_owned(), "xterm-256color".to_owned()));
    v.push(("COLORTERM".to_owned(), "truecolor".to_owned()));
    v.push(("TERM_PROGRAM".to_owned(), "zterm".to_owned()));
    v.push(("TERM_PROGRAM_VERSION".to_owned(), crate::VERSION.to_owned()));
    v
}

/// The default variables as character pairs (see `safe_default_env_entries`).
pub open spec fn safe_default_pairs() -> Seq<(Seq<char>, Seq<char>)> {
    seq![
        ("TERM"@, "xterm-256color"@),
        ("COLORTERM"@, "truecolor"@),
        ("TERM_PROGRAM"@, "zterm"@),
        ("TERM_PROGRAM_VERSION"@, crate::VERSION@),
    ]
}

/// The default variables (see `safe_default_env_entries`) as a map.
pub fn get_safe_default_env() -> (r: HashMap<String, String>)
    ensures
        obeys_key_model::<String>() ==> exists|es: Seq<(String, String)>|
            #[trigger] pairs_read_as(es, safe_default_pairs()) && r@ == inserted_all(Map::empty(), es),
{
    let entries = safe_default_env_entries();
    let mut env: HashMap<String, String> = HashMap::new();
    let mut i: usize = 0;
    assert(entries@.take(0) =~= Seq::<(String, String)>::empty());
    while i < entries.len()
        invariant
            i <= entries@.len(),
            obeys_key_model::<String>() ==> env@ == inserted_all(Map::empty(), entries@.take(i as int)),
        decreases entries@.len() - i,
    {
        let (k, val) = &entries[i];
        proof {
            assert(entries@.take(i + 1).drop_last() =~= entries@.take(i as int));
        }
        env.insert(k.clone(), val.clone());
        i = i + 1;
    }
    assert(entries@.take(i as int) =~= entries@);
    assert(pairs_read_as(entries@, safe_default_pairs()));
    env
}

} // verus!
