use vstd::prelude::*;
use vstd::string::*;

verus! {

/// The text inserted between a file's stem and its extension to name its backup.
pub open spec fn backup_suffix() -> Seq<char> {
    seq!['_', 'o', 'r', 'i', 'g', 'i', 'n', 'a', 'l']
}

/// `k` is the position of the dot that starts the extension of file name `name`: the last
/// dot, where it is not the first character.
pub open spec fn extension_dot_at(name: Seq<char>, k: int) -> bool {
    &&& 0 < k < name.len()
    &&& name[k] == '.'
    &&& forall|j: int| k < j < name.len() ==> name[j] != '.'
}

/// The backup's file name: the stem, the suffix, then the dot and extension if there is one
/// (`data.bin` gives `data_original.bin`, `data` gives `data_original`).
pub open spec fn backup_name(name: Seq<char>) -> Seq<char> {
    if exists|k: int| extension_dot_at(name, k) {
        let k = choose|k: int| extension_dot_at(name, k);
        name.take(k) + backup_suffix() + name.skip(k)
    } else {
        name + backup_suffix()
    }
}

/// A file name has at most one extension dot.
proof fn lemma_extension_dot_unique(name: Seq<char>, a: int, b: int)
    requires
        extension_dot_at(name, a),
        extension_dot_at(name, b),
    ensures
        a == b,
{
    if a < b {
        assert(name[b] != '.');
    } else if b < a {
        assert(name[a] != '.');
    }
}

/// The name of the backup of the file named `name` (a file name, not a path).
pub fn backup_file_name(name: &str) -> (r: String)
    ensures
        r@ == backup_name(name@),
{
    let suffix = "_original";
    proof {
        reveal_strlit("_original");
        assert(suffix@ =~= backup_suffix());
    }
    let n = name.unicode_len();
    let mut k: usize = n;
    while k > 1
        invariant
            n == name@.len(),
            suffix@ == backup_suffix(),
            k <= n,
            forall|j: int| k <= j < n ==> name@[j] != '.',
        decreases k,
    {
        if name.get_char(k - 1) == '.' {
            let d = k - 1;
            proof {
                assert(extension_dot_at(name@, d as int));
                assert forall|k2: int| extension_dot_at(name@, k2) implies k2 == d by {
                    lemma_extension_dot_unique(name@, k2, d as int);
                }
            }
            let head = name.substring_char(0, d);
            let tail = name.substring_char(d, n);
            let stem = <String as StringExecFns>::from_str(head);
            let with_suffix = stem.concat(suffix);
            let r = with_suffix.concat(tail);
            proof {
                assert(name@.subrange(0, d as int) =~= name@.take(d as int));
                assert(name@.subrange(d as int, n as int) =~= name@.skip(d as int));
                let c = choose|k2: int| extension_dot_at(name@, k2);
                assert(c == d);
                assert(r@ =~= name@.take(d as int) + backup_suffix() + name@.skip(d as int));
            }
            return r;
        }
        k = k - 1;
    }
    assert forall|k2: int| !extension_dot_at(name@, k2) by {
        if extension_dot_at(name@, k2) {
            assert(name@[k2] == '.');
        }
    }
    <String as StringExecFns>::from_str(name).concat(suffix)
}

} // verus!
