//! Where a stored file and its sidecar record live under the storage root.
//!
//! Only identifiers in the generator's form are ever turned into a path, so no
//! path leaves the root.

use vstd::prelude::*;
use crate::text::chars_of;

verus! {

/// The length of every identifier.
pub const ID_LENGTH: usize = 36;

/// What is appended to a file's path to name its sidecar record.
pub open spec fn metadata_suffix() -> Seq<char> {
    ".meta.json"@
}

/// A digit, or a letter from `a` to `f`.
pub open spec fn is_lower_hex(c: char) -> bool {
    ('0' <= c && c <= '9') || ('a' <= c && c <= 'f')
}

/// The four places of an identifier that hold a hyphen.
pub open spec fn is_hyphen_place(i: int) -> bool {
    i == 8 || i == 13 || i == 18 || i == 23
}

/// Whether `c` may stand at place `i` of an identifier.
pub open spec fn fits_place(i: int, c: char) -> bool {
    if is_hyphen_place(i) {
        c == '-'
    } else {
        is_lower_hex(c)
    }
}

/// An identifier in the generator's form: 36 characters, hyphens at the four
/// places, lowercase hexadecimal digits everywhere else.
pub open spec fn valid_id(id: Seq<char>) -> bool {
    &&& id.len() == 36
    &&& forall|i: int| 0 <= i < 36 ==> fits_place(i, #[trigger] id[i])
}

/// `leaf` placed directly inside the directory `root`.
pub open spec fn joined(root: Seq<char>, leaf: Seq<char>) -> Seq<char> {
    if root.len() == 0 || root.last() == '/' {
        root + leaf
    } else {
        root + seq!['/'] + leaf
    }
}

/// The path of the stored bytes of `id`.
pub open spec fn blob_path_of(root: Seq<char>, id: Seq<char>) -> Seq<char> {
    joined(root, id)
}

/// The path of the sidecar record of `id`.
pub open spec fn metadata_path_of(root: Seq<char>, id: Seq<char>) -> Seq<char> {
    blob_path_of(root, id) + metadata_suffix()
}

/// A valid identifier holds nothing that could leave a directory: no slash, no
/// backslash and no period.
pub proof fn lemma_valid_id_is_plain(id: Seq<char>, i: int)
    requires
        valid_id(id),
        0 <= i < id.len(),
    ensures
        id[i] == '-' || is_lower_hex(id[i]),
        id[i] != '/' && id[i] != '\\' && id[i] != '.',
{
    assert(fits_place(i, id[i]));
}

/// Nothing that holds a slash, a backslash or a period is a valid identifier,
/// so no traversal sequence is ever turned into a path.
pub proof fn lemma_traversal_is_invalid(id: Seq<char>, i: int)
    requires
        0 <= i < id.len(),
        id[i] == '/' || id[i] == '\\' || id[i] == '.',
    ensures
        !valid_id(id),
{
    if valid_id(id) {
        lemma_valid_id_is_plain(id, i);
    }
}

/// The file of a valid identifier lies directly inside the root: its path is
/// the root, at most one separator, and the identifier itself.
pub proof fn lemma_blob_path_inside_root(root: Seq<char>, id: Seq<char>)
    requires
        valid_id(id),
    ensures
        root.is_prefix_of(blob_path_of(root, id)),
        blob_path_of(root, id).len() <= root.len() + 1 + 36,
        blob_path_of(root, id).skip(blob_path_of(root, id).len() - 36) == id,
        forall|k: int|
            root.len() < k < blob_path_of(root, id).len() ==> {
                let c = #[trigger] blob_path_of(root, id)[k];
                c != '/' && c != '\\' && c != '.'
            },
{
    let p = blob_path_of(root, id);
    assert(p.skip(p.len() - 36) =~= id);
    assert(p.subrange(0, root.len() as int) =~= root);
    assert forall|k: int| root.len() < k < p.len() implies {
        let c = #[trigger] p[k];
        c != '/' && c != '\\' && c != '.'
    } by {
        let j = k - (p.len() - 36);
        assert(p[k] == id[j]);
        lemma_valid_id_is_plain(id, j);
    }
}

/// Different identifiers never share a file or a sidecar record.
pub proof fn lemma_paths_distinct(root: Seq<char>, a: Seq<char>, b: Seq<char>)
    requires
        valid_id(a),
        valid_id(b),
        a != b,
    ensures
        blob_path_of(root, a) != blob_path_of(root, b),
        metadata_path_of(root, a) != metadata_path_of(root, b),
{
    let pa = blob_path_of(root, a);
    let pb = blob_path_of(root, b);
    assert(pa.skip(pa.len() - 36) =~= a);
    assert(pb.skip(pb.len() - 36) =~= b);
    let ma = metadata_path_of(root, a);
    let mb = metadata_path_of(root, b);
    assert(ma.subrange(0, pa.len() as int) =~= pa);
    assert(mb.subrange(0, pb.len() as int) =~= pb);
}

/// No file is the sidecar record of any identifier.
pub proof fn lemma_blob_is_no_sidecar(root: Seq<char>, a: Seq<char>, b: Seq<char>)
    requires
        valid_id(a),
        valid_id(b),
    ensures
        blob_path_of(root, a) != metadata_path_of(root, b),
{
    reveal_strlit(".meta.json");
    let pa = blob_path_of(root, a);
    let mb = metadata_path_of(root, b);
    assert(pa.last() == a[35]);
    assert(fits_place(35, a[35]));
    assert(mb.last() == 'n');
}

/// Whether `id` has the generator's form.
pub fn is_valid_id(id: &str) -> (r: bool)
    ensures
        r == valid_id(id@),
{
    let chars = chars_of(id);
    if chars.len() != ID_LENGTH {
        return false;
    }
    let mut i: usize = 0;
    while i < ID_LENGTH
        invariant
            i <= 36,
            chars@.len() == 36,
            chars@ == id@,
            forall|j: int| 0 <= j < i ==> fits_place(j, #[trigger] chars@[j]),
        decreases 36 - i,
    {
        let c = chars[i];
        let fits = if i == 8 || i == 13 || i == 18 || i == 23 {
            c == '-'
        } else {
            ('0' <= c && c <= '9') || ('a' <= c && c <= 'f')
        };
        if !fits {
            assert(!fits_place(i as int, id@[i as int]));
            return false;
        }
        i += 1;
    }
    true
}

/// `leaf` placed directly inside the directory `root`.
pub(crate) fn join(root: &str, leaf: &str) -> (r: String)
    ensures
        r@ == joined(root@, leaf@),
{
    let dir = chars_of(root);
    let mut out = String::from_str(root);
    if dir.len() > 0 && dir[dir.len() - 1] != '/' {
        out.append("/");
        proof {
            reveal_strlit("/");
            assert("/"@ =~= seq!['/']);
        }
    }
    out.append(leaf);
    out
}

/// The path of the sidecar record that belongs to the file at `blob`.
pub(crate) fn sidecar_of(blob: &str) -> (r: String)
    ensures
        r@ == blob@ + metadata_suffix(),
{
    let mut out = String::from_str(blob);
    out.append(".meta.json");
    out
}

/// The path of the stored bytes of `id` under `root`; `None` exactly when `id`
/// is not a valid identifier.
pub fn blob_path(root: &str, id: &str) -> (r: Option<String>)
    ensures
        r is Some <==> valid_id(id@),
        r is Some ==> r->0@ == blob_path_of(root@, id@),
{
    if is_valid_id(id) {
        Some(join(root, id))
    } else {
        None
    }
}

/// The path of the sidecar record of `id` under `root`; `None` exactly when
/// `id` is not a valid identifier.
pub fn metadata_path(root: &str, id: &str) -> (r: Option<String>)
    ensures
        r is Some <==> valid_id(id@),
        r is Some ==> r->0@ == metadata_path_of(root@, id@),
{
    if is_valid_id(id) {
        Some(sidecar_of(join(root, id).as_str()))
    } else {
        None
    }
}

} // verus!
