//! Paths of entries inside a location.

use crate::text::{ends_with_separator, has_trailing_separator};
use vstd::prelude::*;
use vstd::string::*;

verus! {

/// The path of the entry `name` of the directory at `dir`: the two joined
/// by one separator.
pub open spec fn child_path(dir: Seq<char>, name: Seq<char>) -> Seq<char> {
    if ends_with_separator(dir) {
        dir + name
    } else {
        dir + seq!['/'] + name
    }
}

/// Joins the path of a directory and the name of one of its entries.
pub fn join_path(dir: &str, name: &str) -> (r: String)
    ensures
        r@ == child_path(dir@, name@),
{
    let mut out = String::from_str(dir);
    if !has_trailing_separator(dir) {
        proof {
            reveal_strlit("/");
        }
        out.append("/");
        assert(out@ =~= dir@ + seq!['/']);
    }
    out.append(name);
    out
}

/// The place of the last dot of `name`, or -1 where it has none.
pub open spec fn last_dot(name: Seq<char>) -> int
    decreases name.len(),
{
    if name.len() == 0 {
        -1
    } else if name.last() == '.' {
        name.len() - 1
    } else {
        last_dot(name.drop_last())
    }
}

/// The extension of a file name: what follows its last dot. A name without
/// a dot has none, and neither has a name whose only dot comes first.
pub open spec fn extension_of(name: Seq<char>) -> Seq<char> {
    let dot = last_dot(name);
    if dot <= 0 {
        Seq::empty()
    } else {
        name.skip(dot + 1)
    }
}

/// What `last_dot` finds.
pub proof fn lemma_last_dot(name: Seq<char>)
    ensures
        -1 <= last_dot(name) < name.len(),
        last_dot(name) >= 0 ==> name[last_dot(name)] == '.',
        forall|i: int| last_dot(name) < i < name.len() ==> name[i] != '.',
    decreases name.len(),
{
    if name.len() > 0 && name.last() != '.' {
        lemma_last_dot(name.drop_last());
        assert forall|i: int| last_dot(name) < i < name.len() implies name[i] != '.' by {
            if i < name.len() - 1 {
                assert(name.drop_last()[i] == name[i]);
            }
        }
        if last_dot(name) >= 0 {
            assert(name.drop_last()[last_dot(name)] == name[last_dot(name)]);
        }
    }
}

/// A dot with no dot after it is the last dot.
proof fn lemma_last_dot_unique(name: Seq<char>, at: int)
    requires
        -1 <= at < name.len(),
        at >= 0 ==> name[at] == '.',
        forall|i: int| at < i < name.len() ==> name[i] != '.',
    ensures
        last_dot(name) == at,
{
    lemma_last_dot(name);
    let found = last_dot(name);
    if found > at {
        assert(name[found] != '.');
    }
    if found < at {
        assert(name[at] != '.');
    }
}

/// The extension of a file name.
pub fn extension(name: &str) -> (r: String)
    ensures
        r@ == extension_of(name@),
{
    let n = name.unicode_len();
    let mut i: usize = n;
    while i > 0
        invariant
            i <= n,
            n == name@.len(),
            forall|k: int| i <= k < n ==> name@[k] != '.',
        decreases i,
    {
        if name.get_char(i - 1) == '.' {
            proof {
                lemma_last_dot_unique(name@, i - 1);
            }
            if i - 1 == 0 {
                return String::new();
            }
            let tail = name.substring_char(i, n);
            assert(name@.subrange(i as int, n as int) =~= name@.skip(i as int));
            return String::from_str(tail);
        }
        i = i - 1;
    }
    proof {
        lemma_last_dot_unique(name@, -1);
    }
    String::new()
}

/// Where an entry lies inside its location, and how it is called.
#[derive(Debug)]
pub struct MaterializedPath {
    /// Path of the entry below the root of the location. A directory ends
    /// with the separator; the root itself is the separator alone.
    pub materialized_path: String,
    pub is_dir: bool,
    pub location_id: i32,
    /// Last component of the path.
    pub name: String,
    /// What follows the last dot of a file's name; empty for directories.
    pub extension: String,
}

/// A materialized path as plain values.
pub struct MaterializedPathView {
    pub materialized_path: Seq<char>,
    pub is_dir: bool,
    pub location_id: int,
    pub name: Seq<char>,
    pub extension: Seq<char>,
}

impl View for MaterializedPath {
    type V = MaterializedPathView;

    open spec fn view(&self) -> MaterializedPathView {
        MaterializedPathView {
            materialized_path: self.materialized_path@,
            is_dir: self.is_dir,
            location_id: self.location_id as int,
            name: self.name@,
            extension: self.extension@,
        }
    }
}

/// The materialized path of an entry: the materialized path of the
/// directory that holds it, then its name, then a separator if the entry is
/// a directory. For entries of the root the first part is empty.
pub open spec fn materialized_of(prefix: Seq<char>, name: Seq<char>, is_dir: bool) -> Seq<char> {
    if is_dir {
        prefix + name + seq!['/']
    } else {
        prefix + name
    }
}

/// Where the entry `name` of a directory lies, as plain values.
pub open spec fn child_materialized(
    location_id: int,
    prefix: Seq<char>,
    name: Seq<char>,
    is_dir: bool,
) -> MaterializedPathView {
    MaterializedPathView {
        materialized_path: materialized_of(prefix, name, is_dir),
        is_dir,
        location_id,
        name,
        extension: if is_dir {
            Seq::empty()
        } else {
            extension_of(name)
        },
    }
}

/// Where the root of a location lies, as plain values: at the separator.
pub open spec fn root_materialized(location_id: int, name: Seq<char>) -> MaterializedPathView {
    MaterializedPathView {
        materialized_path: seq!['/'],
        is_dir: true,
        location_id,
        name,
        extension: Seq::empty(),
    }
}

impl MaterializedPath {
    /// The materialized path of the entry `name` in the directory whose
    /// materialized path is `prefix`.
    pub fn child(location_id: i32, prefix: &str, name: &str, is_dir: bool) -> (r: MaterializedPath)
        ensures
            r@ == child_materialized(location_id as int, prefix@, name@, is_dir),
    {
        let mut materialized_path = String::from_str(prefix);
        materialized_path.append(name);
        let extension = if is_dir {
            proof {
                reveal_strlit("/");
            }
            materialized_path.append("/");
            assert(materialized_path@ =~= prefix@ + name@ + seq!['/']);
            String::new()
        } else {
            extension(name)
        };
        MaterializedPath {
            materialized_path,
            is_dir,
            location_id,
            name: String::from_str(name),
            extension,
        }
    }

    /// The materialized path of the root of a location.
    pub fn root(location_id: i32, name: &str) -> (r: MaterializedPath)
        ensures
            r@ == root_materialized(location_id as int, name@),
    {
        proof {
            reveal_strlit("/");
        }
        let materialized_path = String::from_str("/");
        assert(materialized_path@ =~= seq!['/']);
        MaterializedPath {
            materialized_path,
            is_dir: true,
            location_id,
            name: String::from_str(name),
            extension: String::new(),
        }
    }
}

} // verus!
