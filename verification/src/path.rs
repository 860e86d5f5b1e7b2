//! Cache-key location resolution: a configured root, with the user's home
//! directory substituted for a leading tilde, and the fixed entry file name
//! appended. Paths are handled as UTF-8 bytes; the substituted pieces are
//! ASCII, so byte-level splicing preserves the encoding.

use vstd::prelude::*;

verus! {

pub const TILDE: u8 = 126;

/// The root with its first tilde byte replaced by `home`. Without a tilde
/// the root is kept as it is.
pub open spec fn tilde_replaced(path: Seq<u8>, home: Seq<u8>) -> Seq<u8>
    decreases path.len(),
{
    if path.len() == 0 {
        path
    } else if path[0] == TILDE {
        home + path.drop_first()
    } else {
        seq![path[0]] + tilde_replaced(path.drop_first(), home)
    }
}

/// What resolving a root against an optional home directory yields: with no
/// home directory the root is kept unchanged rather than failing.
pub open spec fn expanded(path: Seq<u8>, home: Option<Seq<u8>>) -> Seq<u8> {
    match home {
        Some(h) => tilde_replaced(path, h),
        None => path,
    }
}

proof fn lemma_tilde_replaced_none(path: Seq<u8>, home: Seq<u8>)
    requires
        forall|j: int| 0 <= j < path.len() ==> path[j] != TILDE,
    ensures
        tilde_replaced(path, home) == path,
    decreases path.len(),
{
    if path.len() == 0 {
    } else {
        lemma_tilde_replaced_none(path.drop_first(), home);
        assert(seq![path[0]] + path.drop_first() =~= path);
    }
}

proof fn lemma_tilde_replaced_at(path: Seq<u8>, home: Seq<u8>, i: int)
    requires
        0 <= i < path.len(),
        path[i] == TILDE,
        forall|j: int| 0 <= j < i ==> path[j] != TILDE,
    ensures
        tilde_replaced(path, home) == path.take(i) + home + path.skip(i + 1),
    decreases i,
{
    if i == 0 {
        assert(path.take(0) =~= Seq::<u8>::empty());
        assert(path.skip(1) =~= path.drop_first());
        assert(path.take(0) + home + path.skip(1) =~= home + path.drop_first());
    } else {
        assert(path.drop_first()[i - 1] == path[i]);
        lemma_tilde_replaced_at(path.drop_first(), home, i - 1);
        assert(path.drop_first().take(i - 1) =~= path.take(i).drop_first());
        assert(path.drop_first().skip(i) =~= path.skip(i + 1));
        assert(seq![path[0]] + (path.drop_first().take(i - 1) + home + path.drop_first().skip(i))
            =~= path.take(i) + home + path.skip(i + 1));
    }
}

fn copy_bytes(out: &mut Vec<u8>, src: &Vec<u8>, from: usize, to: usize)
    requires
        from <= to <= src@.len(),
    ensures
        final(out)@ == old(out)@ + src@.subrange(from as int, to as int),
{
    let mut i: usize = from;
    proof {
        assert(out@ =~= out@ + src@.subrange(from as int, from as int));
    }
    while i < to
        invariant
            from <= i <= to,
            to <= src@.len(),
            out@ == old(out)@ + src@.subrange(from as int, i as int),
        decreases to - i,
    {
        out.push(src[i]);
        proof {
            assert(src@.subrange(from as int, i + 1 as int) =~= src@.subrange(
                from as int,
                i as int,
            ).push(src@[i as int]));
            assert(out@ =~= old(out)@ + src@.subrange(from as int, i + 1 as int));
        }
        i += 1;
    }
}

/// Resolves a configured root against the home directory: the first tilde
/// byte, if any, is replaced by `home`; a missing home directory leaves the
/// root untouched.
pub fn expand_tilde(path: &Vec<u8>, home: Option<&Vec<u8>>) -> (r: Vec<u8>)
    ensures
        (home matches Some(h) ==> r@ == expanded(path@, Some(h@))),
        (home is None ==> r@ == expanded(path@, None::<Seq<u8>>)),
{
    let mut out: Vec<u8> = Vec::new();
    match home {
        None => {
            copy_bytes(&mut out, path, 0, path.len());
            proof {
                assert(path@.subrange(0, path@.len() as int) =~= path@);
                assert(out@ =~= path@);
            }
            out
        },
        Some(h) => {
            let n = path.len();
            let mut i: usize = 0;
            while i < n
                invariant
                    i <= n,
                    n == path@.len(),
                    out@ == Seq::<u8>::empty(),
                    home == Some(h),
                    forall|j: int| 0 <= j < i ==> path@[j] != TILDE,
                decreases n - i,
            {
                if path[i] == TILDE {
                    copy_bytes(&mut out, path, 0, i);
                    copy_bytes(&mut out, h, 0, h.len());
                    copy_bytes(&mut out, path, i + 1, n);
                    proof {
                        lemma_tilde_replaced_at(path@, h@, i as int);
                        assert(h@.subrange(0, h@.len() as int) =~= h@);
                        assert(out@ =~= path@.take(i as int) + h@ + path@.skip(i + 1));
                    }
                    return out;
                }
                i += 1;
            }
            copy_bytes(&mut out, path, 0, n);
            proof {
                lemma_tilde_replaced_none(path@, h@);
                assert(path@.subrange(0, n as int) =~= path@);
                assert(out@ =~= path@);
            }
            out
        },
    }
}

/// The fixed file name of a cache entry inside its key's namespace.
pub open spec fn entry_file_suffix() -> Seq<u8> {
    seq![47u8, 100u8, 97u8, 116u8, 97u8, 46u8, 106u8, 115u8, 111u8, 110u8]
}

/// The physical entry location for a key root: `<root>/data.json`.
pub fn entry_location(root: &Vec<u8>) -> (r: Vec<u8>)
    ensures
        r@ == root@ + entry_file_suffix(),
{
    let mut out: Vec<u8> = Vec::new();
    copy_bytes(&mut out, root, 0, root.len());
    out.push(47);
    out.push(100);
    out.push(97);
    out.push(116);
    out.push(97);
    out.push(46);
    out.push(106);
    out.push(115);
    out.push(111);
    out.push(110);
    proof {
        assert(root@.subrange(0, root@.len() as int) =~= root@);
        assert(out@ =~= root@ + entry_file_suffix());
    }
    out
}

} // verus!
