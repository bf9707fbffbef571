//! The environment the client prepares for itself on Linux: library search
//! paths inside an AppImage, and the X authority file that lets monitor
//! enumeration work under Xwayland.
use vstd::prelude::*;

use crate::text::{has_prefix, lemma_seq_less_order, seq_less, starts_with, str_less};

verus! {

/// `prepend_path_var`: `entry` in front of the variable's current value,
/// separated by `:`, or `entry` alone when the variable is unset.
pub fn prepend_path_var(entry: &str, existing: Option<&str>) -> (value: String)
    ensures
        value@ == match existing {
            Some(e) => entry@ + ":"@ + e@,
            None => entry@,
        },
{
    let mut value = String::from_str(entry);
    match existing {
        Some(e) => {
            value.append(":");
            value.append(e);
        },
        None => {},
    }
    value
}

/// `Path::join` with a relative path on Unix: a `/` is put between the two
/// unless `base` is empty or already ends with one.
pub open spec fn join_relative_spec(base: Seq<char>, rel: Seq<char>) -> Seq<char> {
    if base.len() == 0 || base.last() == '/' {
        base + rel
    } else {
        base + "/"@ + rel
    }
}

/// Joins a relative path onto `base`.
pub fn join_relative(base: &str, rel: &str) -> (path: String)
    ensures
        path@ == join_relative_spec(base@, rel@),
{
    let n = base.unicode_len();
    let mut path = String::from_str(base);
    if n > 0 && base.get_char(n - 1) != '/' {
        path.append("/");
    }
    path.append(rel);
    path
}

/// Where an AppImage bundles its GIO modules, below `APPDIR`.
pub fn bundled_gio_module_path(appdir: &str) -> (path: String)
    ensures
        path@ == join_relative_spec(appdir@, "usr/lib/x86_64-linux-gnu/gio/modules"@),
{
    join_relative(appdir, "usr/lib/x86_64-linux-gnu/gio/modules")
}

/// The prefix of the X authority files mutter writes for Xwayland.
pub open spec fn xwayland_auth_prefix() -> Seq<char> {
    ".mutter-Xwaylandauth."@
}

/// `i` names the first of the Xwayland authority files in sorted order.
pub open spec fn least_auth_file(names: Seq<String>, i: int) -> bool {
    &&& 0 <= i < names.len()
    &&& has_prefix(names[i]@, xwayland_auth_prefix())
    &&& forall|j: int| 0 <= j < names.len() && has_prefix(#[trigger] names[j]@, xwayland_auth_prefix()) ==> !seq_less(names[j]@, names[i]@)
}

/// `find_xauthority` in the runtime directory: among the entries' file names,
/// the first (in sorted order) of those that start with
/// `.mutter-Xwaylandauth.`.
pub fn pick_xwayland_auth(names: &Vec<String>) -> (r: Option<usize>)
    ensures
        match r {
            Some(i) => least_auth_file(names@, i as int),
            None => forall|j: int| 0 <= j < names@.len() ==> !has_prefix(#[trigger] names@[j]@, xwayland_auth_prefix()),
        },
{
    let mut best: Option<usize> = None;
    let mut i: usize = 0;
    while i < names.len()
        invariant
            i <= names@.len(),
            match best {
                Some(b) => b < i && has_prefix(names@[b as int]@, xwayland_auth_prefix()) && forall|j: int|
                    0 <= j < i && has_prefix(#[trigger] names@[j]@, xwayland_auth_prefix()) ==> !seq_less(
                        names@[j]@,
                        names@[b as int]@,
                    ),
                None => forall|j: int| 0 <= j < i ==> !has_prefix(#[trigger] names@[j]@, xwayland_auth_prefix()),
            },
        decreases names.len() - i,
    {
        if starts_with(names[i].as_str(), ".mutter-Xwaylandauth.") {
            match best {
                Some(b) => {
                    if str_less(names[i].as_str(), names[b].as_str()) {
                        proof {
                            assert forall|j: int|
                                0 <= j < i + 1 && has_prefix(#[trigger] names@[j]@, xwayland_auth_prefix()) implies !seq_less(
                                names@[j]@,
                                names@[i as int]@,
                            ) by {
                                lemma_seq_less_order(names@[i as int]@, names@[b as int]@, names@[j]@);
                                lemma_seq_less_order(names@[j]@, names@[i as int]@, names@[b as int]@);
                            }
                        }
                        best = Some(i);
                    } else {
                        proof {
                            lemma_seq_less_order(names@[i as int]@, names@[b as int]@, names@[b as int]@);
                        }
                    }
                },
                None => {
                    proof {
                        lemma_seq_less_order(names@[i as int]@, names@[i as int]@, names@[i as int]@);
                    }
                    best = Some(i);
                },
            }
        }
        i = i + 1;
    }
    best
}

} // verus!
