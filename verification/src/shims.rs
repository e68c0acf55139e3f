//! The shim directory: which shims an installed package gets, and which
//! entries go when an environment is removed.

use vstd::prelude::*;
use crate::bytes::texts;
use crate::installer::{bin_path_of, InstallError};
use crate::manifest::{decodes, lines, split_lines};
use crate::paths::{
    is_plain_name, join, join_path, join_then_strip, joined_name_lies_under, lies_under,
    lies_under_is_transitive, normal, normalize, relative_name_is_relative, relative_to,
    strip_prefix, SEPARATOR,
};
use vstd::utf8::valid_utf8;

verus! {

/// A shim to publish: a link at `link`, called `name` inside the shim
/// directory, that points at the executable `source`.
#[derive(Clone, Debug, PartialEq, Eq)]
pub struct Shim {
    pub name: Vec<u8>,
    pub source: Vec<u8>,
    pub link: Vec<u8>,
}

/// What a `Shim` holds.
pub struct ShimModel {
    pub name: Seq<u8>,
    pub source: Seq<u8>,
    pub link: Seq<u8>,
}

impl View for Shim {
    type V = ShimModel;

    open spec fn view(&self) -> ShimModel {
        ShimModel { name: self.name@, source: self.source@, link: self.link@ }
    }
}

/// An entry of the shim directory: its path and, where it is a symlink whose
/// target can be read, that target.
#[derive(Clone, Debug, PartialEq, Eq)]
pub struct ShimEntry {
    pub path: Vec<u8>,
    pub target: Option<Vec<u8>>,
}

/// What a `ShimEntry` holds.
pub struct Link {
    pub path: Seq<u8>,
    pub target: Option<Seq<u8>>,
}

impl View for ShimEntry {
    type V = Link;

    open spec fn view(&self) -> Link {
        Link {
            path: self.path@,
            target: match self.target {
                Some(t) => Some(t@),
                None => None,
            },
        }
    }
}

/// What a list of shims holds.
pub open spec fn models(list: Seq<Shim>) -> Seq<ShimModel> {
    Seq::new(list.len(), |i: int| list[i]@)
}

/// What a list of directory entries holds.
pub open spec fn links(list: Seq<ShimEntry>) -> Seq<Link> {
    Seq::new(list.len(), |i: int| list[i]@)
}

/// Whether the file `file` lies under the directory `dir`, part by part:
/// whether the normal form of the one lies under the normal form of the
/// other. Repeated separators, single dots and a separator at the end make
/// no difference.
pub open spec fn is_under(file: Seq<u8>, dir: Seq<u8>) -> bool {
    lies_under(normal(file), normal(dir))
}

/// The shim for the executable `file` of the bin directory `bin`: it has the
/// file's name relative to `bin`, stands under that name in `shim_dir`, and
/// points at `file` itself.
pub open spec fn shim_for(file: Seq<u8>, bin: Seq<u8>, shim_dir: Seq<u8>) -> ShimModel {
    ShimModel {
        name: relative_to(normal(file), normal(bin)),
        source: file,
        link: join(shim_dir, relative_to(normal(file), normal(bin))),
    }
}

/// The shims for a package's files: one for each file under `bin`, in the
/// files' order.
pub open spec fn shims_of(files: Seq<Seq<u8>>, bin: Seq<u8>, shim_dir: Seq<u8>) -> Seq<ShimModel>
    decreases files.len(),
{
    if files.len() == 0 {
        Seq::empty()
    } else if is_under(files.last(), bin) {
        shims_of(files.drop_last(), bin, shim_dir).push(shim_for(files.last(), bin, shim_dir))
    } else {
        shims_of(files.drop_last(), bin, shim_dir)
    }
}

/// Whether a directory entry is a symlink into the environment at `env`.
pub open spec fn points_into(link: Link, env: Seq<u8>) -> bool {
    match link.target {
        Some(t) => is_under(t, env),
        None => false,
    }
}

/// The paths of the entries that go with the environment at `env`: the
/// symlinks into it, in the entries' order.
pub open spec fn stale(entries: Seq<Link>, env: Seq<u8>) -> Seq<Seq<u8>>
    decreases entries.len(),
{
    if entries.len() == 0 {
        Seq::empty()
    } else if points_into(entries.last(), env) {
        stale(entries.drop_last(), env).push(entries.last().path)
    } else {
        stale(entries.drop_last(), env)
    }
}

/// The entries that stay when the environment at `env` goes: all but the
/// symlinks into it, in the entries' order.
pub open spec fn surviving(entries: Seq<Link>, env: Seq<u8>) -> Seq<Link>
    decreases entries.len(),
{
    if entries.len() == 0 {
        Seq::empty()
    } else if points_into(entries.last(), env) {
        surviving(entries.drop_last(), env)
    } else {
        surviving(entries.drop_last(), env).push(entries.last())
    }
}

/// Whether `path` is the path of an entry that is a symlink into the
/// environment at `env`.
pub open spec fn is_symlink_into(entries: Seq<Link>, env: Seq<u8>, path: Seq<u8>) -> bool {
    exists|i: int|
        0 <= i < entries.len() && points_into(#[trigger] entries[i], env) && entries[i].path == path
}

/// The directory entries that publishing `shims` creates.
pub open spec fn published(shims: Seq<ShimModel>) -> Seq<Link> {
    Seq::new(shims.len(), |i: int| Link { path: shims[i].link, target: Some(shims[i].source) })
}

/// Plans the shims for the files of a package.
pub fn plan_shims(files: &Vec<Vec<u8>>, bin: &Vec<u8>, shim_dir: &Vec<u8>) -> (out: Vec<Shim>)
    ensures
        models(out@) == shims_of(texts(files@), bin@, shim_dir@),
{
    let base = normalize(bin);
    let mut out: Vec<Shim> = Vec::new();
    let mut i: usize = 0;
    proof {
        assert(models(out@) =~= shims_of(texts(files@).take(0), bin@, shim_dir@));
    }
    while i < files.len()
        invariant
            i <= files.len(),
            base@ == normal(bin@),
            models(out@) == shims_of(texts(files@).take(i as int), bin@, shim_dir@),
        decreases files.len() - i,
    {
        proof {
            let now = texts(files@).take(i + 1);
            assert(now.drop_last() =~= texts(files@).take(i as int));
            assert(now.last() == files@[i as int]@);
        }
        match strip_prefix(&normalize(&files[i]), &base) {
            Some(name) => {
                let link = join_path(shim_dir, &name);
                let ghost before = out@;
                out.push(Shim { name, source: files[i].clone(), link });
                proof {
                    assert(models(out@) =~= models(before).push(
                        shim_for(files@[i as int]@, bin@, shim_dir@),
                    ));
                }
            },
            None => {},
        }
        i += 1;
    }
    proof {
        assert(texts(files@).take(files@.len() as int) =~= texts(files@));
    }
    out
}

/// Reads a package's manifest and plans its shims. A manifest that is no
/// text in UTF-8 is unreadable; of a readable one, every line is a file.
pub fn shims_from_manifest(
    manifest: &Vec<u8>,
    bin: &Vec<u8>,
    shim_dir: &Vec<u8>,
) -> (result: Result<Vec<Shim>, InstallError>)
    ensures
        result is Ok <==> valid_utf8(manifest@),
        result matches Err(e) ==> e is ManifestUnreadable,
        result matches Ok(shims) ==> models(shims@) == shims_of(lines(manifest@), bin@, shim_dir@),
{
    if !decodes(manifest) {
        return Err(InstallError::ManifestUnreadable);
    }
    let files = split_lines(manifest);
    Ok(plan_shims(&files, bin, shim_dir))
}

/// Finds the shims that go with the environment at `env`: the paths of the
/// entries that are symlinks into it. Every other entry is left alone.
/// `exists` says whether there is an environment at `env`; where there is
/// none, nothing goes, whatever the shim directory holds.
pub fn uninstall_helper(env: &Vec<u8>, exists: bool, entries: &Vec<ShimEntry>) -> (out: Vec<Vec<u8>>)
    ensures
        exists ==> texts(out@) == stale(links(entries@), env@),
        !exists ==> out@.len() == 0,
{
    let mut out: Vec<Vec<u8>> = Vec::new();
    if !exists {
        return out;
    }
    let base = normalize(env);
    let mut i: usize = 0;
    proof {
        assert(texts(out@) =~= stale(links(entries@).take(0), env@));
    }
    while i < entries.len()
        invariant
            i <= entries.len(),
            base@ == normal(env@),
            texts(out@) == stale(links(entries@).take(i as int), env@),
        decreases entries.len() - i,
    {
        proof {
            let now = links(entries@).take(i + 1);
            assert(now.drop_last() =~= links(entries@).take(i as int));
            assert(now.last() == entries@[i as int]@);
        }
        match &entries[i].target {
            Some(target) => {
                if strip_prefix(&normalize(target), &base).is_some() {
                    let ghost before = out@;
                    out.push(entries[i].path.clone());
                    proof {
                        assert(texts(out@) =~= texts(before).push(entries@[i as int].path@));
                    }
                }
            },
            None => {},
        }
        i += 1;
    }
    proof {
        assert(links(entries@).take(entries@.len() as int) =~= links(entries@));
    }
    out
}

/// Every file of a package under `bin` has its shim, and every shim is that
/// of such a file: it points exactly at the file and stands in the shim
/// directory under the file's name relative to `bin`.
pub proof fn every_bin_file_has_its_shim(files: Seq<Seq<u8>>, bin: Seq<u8>, shim_dir: Seq<u8>)
    ensures
        forall|i: int|
            0 <= i < files.len() && is_under(#[trigger] files[i], bin) ==> shims_of(
                files,
                bin,
                shim_dir,
            ).contains(shim_for(files[i], bin, shim_dir)),
        forall|k: int|
            0 <= k < shims_of(files, bin, shim_dir).len() ==> {
                let shim = #[trigger] shims_of(files, bin, shim_dir)[k];
                &&& files.contains(shim.source)
                &&& is_under(shim.source, bin)
                &&& shim == shim_for(shim.source, bin, shim_dir)
                &&& lies_under(shim.link, shim_dir)
                &&& relative_to(shim.link, shim_dir) == relative_to(normal(shim.source), normal(bin))
            },
    decreases files.len(),
{
    if files.len() > 0 {
        let front = files.drop_last();
        every_bin_file_has_its_shim(front, bin, shim_dir);
        let all = shims_of(files, bin, shim_dir);
        let before = shims_of(front, bin, shim_dir);
        assert forall|i: int| 0 <= i < files.len() && is_under(#[trigger] files[i], bin) implies all.contains(
            shim_for(files[i], bin, shim_dir),
        ) by {
            if i < files.len() - 1 {
                assert(front[i] == files[i]);
                let k = choose|k: int|
                    0 <= k < before.len() && before[k] == shim_for(files[i], bin, shim_dir);
                assert(all[k] == before[k]);
            } else {
                assert(all[all.len() - 1] == shim_for(files[i], bin, shim_dir));
            }
        }
        assert forall|k: int| 0 <= k < all.len() implies {
            let shim = #[trigger] all[k];
            &&& files.contains(shim.source)
            &&& is_under(shim.source, bin)
            &&& shim == shim_for(shim.source, bin, shim_dir)
            &&& lies_under(shim.link, shim_dir)
            &&& relative_to(shim.link, shim_dir) == relative_to(normal(shim.source), normal(bin))
        } by {
            let shim = all[k];
            if k < before.len() {
                assert(shim == before[k]);
                let i = choose|i: int| 0 <= i < front.len() && front[i] == shim.source;
                assert(files[i] == shim.source);
            } else {
                assert(shim == shim_for(files.last(), bin, shim_dir));
                assert(files[files.len() - 1] == shim.source);
                relative_name_is_relative(normal(files.last()), normal(bin));
                join_then_strip(shim_dir, relative_to(normal(files.last()), normal(bin)));
            }
        }
    }
}

/// Every shim published for a package is a symlink into the package's
/// environment, so removing the environment takes each of them along.
pub proof fn published_shims_go_with_their_environment(
    files: Seq<Seq<u8>>,
    env: Seq<u8>,
    shim_dir: Seq<u8>,
)
    ensures
        forall|k: int|
            0 <= k < shims_of(files, bin_path_of(env), shim_dir).len() ==> points_into(
                #[trigger] published(shims_of(files, bin_path_of(env), shim_dir))[k],
                env,
            ),
{
    let bin_path = bin_path_of(env);
    let shims = shims_of(files, bin_path, shim_dir);
    every_bin_file_has_its_shim(files, bin_path, shim_dir);
    let bin_name = crate::words::bin();
    assert(is_plain_name(bin_name)) by {
        assert(bin_name.len() == 3);
        assert(bin_name[0] != SEPARATOR && bin_name[1] != SEPARATOR && bin_name[2] != SEPARATOR);
    }
    joined_name_lies_under(env, bin_name);
    assert forall|k: int| 0 <= k < shims.len() implies points_into(
        #[trigger] published(shims)[k],
        env,
    ) by {
        assert(is_under(shims[k].source, bin_path));
        lies_under_is_transitive(normal(shims[k].source), normal(bin_path), normal(env));
    }
}

/// What removing an environment does to the shim directory: each symlink
/// into the environment is removed, nothing that stays points into it, and
/// every other entry stays.
pub proof fn uninstall_prunes_exactly(entries: Seq<Link>, env: Seq<u8>)
    ensures
        forall|i: int|
            0 <= i < entries.len() && points_into(#[trigger] entries[i], env) ==> stale(
                entries,
                env,
            ).contains(entries[i].path),
        forall|i: int|
            0 <= i < entries.len() && !points_into(#[trigger] entries[i], env) ==> surviving(
                entries,
                env,
            ).contains(entries[i]),
        forall|k: int|
            0 <= k < surviving(entries, env).len() ==> !points_into(
                #[trigger] surviving(entries, env)[k],
                env,
            ) && entries.contains(surviving(entries, env)[k]),
        forall|k: int|
            0 <= k < stale(entries, env).len() ==> is_symlink_into(
                entries,
                env,
                #[trigger] stale(entries, env)[k],
            ),
    decreases entries.len(),
{
    if entries.len() > 0 {
        let front = entries.drop_last();
        let last = entries.last();
        uninstall_prunes_exactly(front, env);
        let gone = stale(entries, env);
        let kept = surviving(entries, env);
        let gone_before = stale(front, env);
        let kept_before = surviving(front, env);
        assert forall|i: int| 0 <= i < entries.len() && points_into(#[trigger] entries[i], env) implies gone.contains(
            entries[i].path,
        ) by {
            if i < entries.len() - 1 {
                assert(front[i] == entries[i]);
                let k = choose|k: int| 0 <= k < gone_before.len() && gone_before[k] == entries[i].path;
                assert(gone[k] == gone_before[k]);
            } else {
                assert(gone[gone.len() - 1] == entries[i].path);
            }
        }
        assert forall|i: int| 0 <= i < entries.len() && !points_into(#[trigger] entries[i], env) implies kept.contains(
            entries[i],
        ) by {
            if i < entries.len() - 1 {
                assert(front[i] == entries[i]);
                let k = choose|k: int| 0 <= k < kept_before.len() && kept_before[k] == entries[i];
                assert(kept[k] == kept_before[k]);
            } else {
                assert(kept[kept.len() - 1] == entries[i]);
            }
        }
        assert forall|k: int| 0 <= k < kept.len() implies !points_into(#[trigger] kept[k], env)
            && entries.contains(kept[k]) by {
            if k < kept_before.len() {
                assert(kept[k] == kept_before[k]);
                let i = choose|i: int| 0 <= i < front.len() && front[i] == kept_before[k];
                assert(entries[i] == kept[k]);
            } else {
                assert(kept[k] == last);
                assert(entries[entries.len() - 1] == last);
            }
        }
        assert forall|k: int| 0 <= k < gone.len() implies is_symlink_into(
            entries,
            env,
            #[trigger] gone[k],
        ) by {
            if k < gone_before.len() {
                assert(gone[k] == gone_before[k]);
                assert(is_symlink_into(front, env, gone_before[k]));
                let i = choose|i: int|
                    0 <= i < front.len() && points_into(#[trigger] front[i], env) && front[i].path
                        == gone_before[k];
                assert(entries[i] == front[i]);
            } else {
                assert(entries[entries.len() - 1] == last);
            }
        }
    }
}

/// Where no entry points into an environment, removing it changes nothing
/// in the shim directory.
pub proof fn nothing_to_prune(entries: Seq<Link>, env: Seq<u8>)
    requires
        forall|i: int| 0 <= i < entries.len() ==> !points_into(#[trigger] entries[i], env),
    ensures
        stale(entries, env) == Seq::<Seq<u8>>::empty(),
        surviving(entries, env) == entries,
    decreases entries.len(),
{
    if entries.len() > 0 {
        let front = entries.drop_last();
        assert forall|i: int| 0 <= i < front.len() implies !points_into(#[trigger] front[i], env) by {
            assert(front[i] == entries[i]);
        }
        nothing_to_prune(front, env);
        assert(!points_into(entries[entries.len() - 1], env));
        assert(front.push(entries.last()) =~= entries);
    } else {
        assert(surviving(entries, env) =~= entries);
    }
}

/// Removing an environment a second time finds nothing left to remove and
/// leaves the shim directory as the first removal left it.
pub proof fn uninstall_is_idempotent(entries: Seq<Link>, env: Seq<u8>)
    ensures
        stale(surviving(entries, env), env) == Seq::<Seq<u8>>::empty(),
        surviving(surviving(entries, env), env) == surviving(entries, env),
{
    uninstall_prunes_exactly(entries, env);
    nothing_to_prune(surviving(entries, env), env);
}

/// After a package is installed over an existing one, the only entries of
/// the shim directory that point into its environment are the shims just
/// published: none from before is left.
pub proof fn reinstall_leaves_no_stale_shim(
    entries: Seq<Link>,
    env: Seq<u8>,
    files: Seq<Seq<u8>>,
    bin: Seq<u8>,
    shim_dir: Seq<u8>,
)
    ensures
        ({
            let kept = surviving(entries, env);
            let after = kept + published(shims_of(files, bin, shim_dir));
            forall|i: int|
                0 <= i < after.len() && points_into(#[trigger] after[i], env) ==> i >= kept.len()
        }),
{
    uninstall_prunes_exactly(entries, env);
    let kept = surviving(entries, env);
    let after = kept + published(shims_of(files, bin, shim_dir));
    assert forall|i: int| 0 <= i < after.len() && points_into(#[trigger] after[i], env) implies i
        >= kept.len() by {
        if i < kept.len() {
            assert(after[i] == kept[i]);
        }
    }
}

} // verus!
