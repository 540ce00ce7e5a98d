//! Which directory entries are patch files.
//!
//! A file is applied as a patch exactly when its name carries the patch
//! extension: the name ends with the six bytes of `".patch"` and has at
//! least one byte of stem before them. Names are handled as raw bytes, the
//! form in which a directory listing yields them.

use vstd::prelude::*;

verus! {

/// The six bytes of `".patch"`.
pub open spec fn patch_suffix() -> Seq<u8> {
    seq![46u8, 112u8, 97u8, 116u8, 99u8, 104u8]
}

/// A name is a patch name when it ends with `".patch"` and the stem before
/// the extension is non-empty, so the bare name `".patch"` does not count.
pub open spec fn is_patch_name(name: Seq<u8>) -> bool {
    name.len() > 6 && name.skip(name.len() - 6) == patch_suffix()
}

/// The patch-name test as a predicate value, shared by every place that
/// filters a listing, so that all of them speak of one and the same function.
pub open spec fn patch_name_pred() -> spec_fn(Seq<u8>) -> bool {
    |n: Seq<u8>| is_patch_name(n)
}

/// The patch files of a directory listing, in listing order: the entries
/// whose names carry the patch extension, all others dropped.
pub open spec fn selected_patches(entries: Seq<Seq<u8>>) -> Seq<Seq<u8>> {
    entries.filter(patch_name_pred())
}

/// How many entries of a listing carry the patch extension.
pub open spec fn patch_count(entries: Seq<Seq<u8>>) -> nat
    decreases entries.len(),
{
    if entries.len() == 0 {
        0
    } else {
        patch_count(entries.drop_last()) + (if is_patch_name(entries.last()) {
            1nat
        } else {
            0nat
        })
    }
}

/// Decides whether a file name carries the patch extension.
pub fn has_patch_extension(name: &Vec<u8>) -> (r: bool)
    ensures
        r == is_patch_name(name@),
{
    let n = name.len();
    if n < 7 {
        return false;
    }
    let r = name[n - 6] == 46 && name[n - 5] == 112 && name[n - 4] == 97 && name[n - 3] == 116
        && name[n - 2] == 99 && name[n - 1] == 104;
    proof {
        let s = name@.skip(n - 6);
        assert(s.len() == 6);
        assert forall|i: int| 0 <= i < 6 implies s[i] == name@[n - 6 + i] by {}
        if r {
            assert(s =~= patch_suffix());
        } else {
            assert(s != patch_suffix()) by {
                if s == patch_suffix() {
                    assert(s[0] == 46u8 && s[1] == 112u8 && s[2] == 97u8 && s[3] == 116u8 && s[4]
                        == 99u8 && s[5] == 104u8);
                }
            }
        }
    }
    r
}

/// Selecting from an empty listing selects nothing.
pub proof fn lemma_selected_empty(entries: Seq<Seq<u8>>)
    requires
        entries.len() == 0,
    ensures
        selected_patches(entries).len() == 0,
{
    reveal(Seq::filter);
}

/// Appending one entry to a listing extends the selection by that entry
/// exactly when its name carries the patch extension.
pub proof fn lemma_selected_push(entries: Seq<Seq<u8>>, name: Seq<u8>)
    ensures
        selected_patches(entries.push(name)) == (if is_patch_name(name) {
            selected_patches(entries).push(name)
        } else {
            selected_patches(entries)
        }),
{
    reveal(Seq::filter);
    assert(entries.push(name).drop_last() =~= entries);
    assert(entries.push(name).last() == name);
}

/// The selection is exact: it is as long as the number of patch-named
/// entries, every selected name carries the patch extension, and every
/// patch-named entry of the listing is selected.
pub proof fn lemma_selection_exact(entries: Seq<Seq<u8>>)
    ensures
        selected_patches(entries).len() == patch_count(entries),
        forall|i: int|
            0 <= i < selected_patches(entries).len() ==> is_patch_name(
                #[trigger] selected_patches(entries)[i],
            ),
        forall|i: int|
            0 <= i < entries.len() && is_patch_name(#[trigger] entries[i])
                ==> selected_patches(entries).contains(entries[i]),
    decreases entries.len(),
{
    broadcast use vstd::seq_lib::group_filter_ensures;

    if entries.len() > 0 {
        lemma_selection_exact(entries.drop_last());
        assert(entries.drop_last().push(entries.last()) =~= entries);
        lemma_selected_push(entries.drop_last(), entries.last());
    }
}

/// Keeps exactly the entries whose names carry the patch extension, in
/// listing order.
pub fn select_patch_names(entries: &Vec<Vec<u8>>) -> (r: Vec<Vec<u8>>)
    ensures
        r.deep_view() == selected_patches(entries.deep_view()),
{
    let mut r: Vec<Vec<u8>> = Vec::new();
    let mut i: usize = 0;
    proof {
        lemma_selected_empty(entries.deep_view().take(0));
        assert(r.deep_view() =~= selected_patches(entries.deep_view().take(0)));
    }
    while i < entries.len()
        invariant
            i <= entries.len(),
            entries.deep_view().len() == entries.len(),
            r.deep_view() == selected_patches(entries.deep_view().take(i as int)),
        decreases entries.len() - i,
    {
        let ghost prev = r.deep_view();
        let ghost dv = entries.deep_view();
        if has_patch_extension(&entries[i]) {
            r.push(entries[i].clone());
            proof {
                assert(r.deep_view() =~= prev.push(dv[i as int]));
            }
        }
        proof {
            assert(dv.take(i + 1) =~= dv.take(i as int).push(dv[i as int]));
            assert(dv[i as int] =~= entries@[i as int]@);
            lemma_selected_push(dv.take(i as int), dv[i as int]);
        }
        i = i + 1;
    }
    proof {
        assert(entries.deep_view().take(entries@.len() as int) =~= entries.deep_view());
    }
    r
}

} // verus!
