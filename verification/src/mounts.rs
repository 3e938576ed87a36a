//! How the `MOUNT` instructions of a program become bind mounts and
//! overlays of its container.
use vstd::prelude::*;

use crate::dsl::{InstMount, MountOptions, MountType};
use crate::envmap::str_eq;
use crate::error::RaptorError;
use crate::layer::{spec_layer_id, LayerInfo};
use crate::names::{find_entry, list_or_empty, NameLists};
use crate::nspawn::{BindMode, BindMount, BindMountView, SpawnBuilder, SpawnView};
use crate::paths::{path_join, path_join_result};
use crate::text::{push_str, strings_view};

verus! {

/// The id of a layer, which is also the file name of its directory.
pub open spec fn layer_id(l: LayerInfo) -> Seq<char> {
    spec_layer_id(l.spec_name(), l.spec_hash())
}

/// Where a finished layer lies.
pub open spec fn layer_path(l: LayerInfo) -> Seq<char> {
    path_join_result("layers"@, layer_id(l))
}

/// The ids of the layers, in order.
pub open spec fn layer_ids(ls: Seq<LayerInfo>) -> Seq<Seq<char>> {
    ls.map_values(|l: LayerInfo| layer_id(l))
}

/// The directories of the layers, in order.
pub open spec fn layer_paths(ls: Seq<LayerInfo>) -> Seq<Seq<char>> {
    ls.map_values(|l: LayerInfo| layer_path(l))
}

/// Each layer mounted under `dest`, in a directory named by its id.
pub open spec fn layer_binds(ls: Seq<LayerInfo>, dest: Seq<char>) -> Seq<BindMountView> {
    ls.map_values(
        |l: LayerInfo|
            BindMountView {
                src: layer_path(l),
                dst: path_join_result(dest, layer_id(l)),
                mode: BindMode::NoIdmap,
            },
    )
}

/// The views of the built layers of each program.
pub open spec fn built_view(b: Seq<(String, Vec<LayerInfo>)>) -> Seq<(Seq<char>, Seq<LayerInfo>)> {
    b.map_values(|p: (String, Vec<LayerInfo>)| (p.0@, p.1@))
}

/// The layers built for `name`; none if it has no entry.
pub open spec fn built_for(b: Seq<(Seq<char>, Seq<LayerInfo>)>, name: Seq<char>) -> Seq<LayerInfo> {
    match find_entry(b, name) {
        Some(ls) => ls,
        None => Seq::empty(),
    }
}

/// What a `--layers` mount lists in its `raptor.json`: the programs that
/// were mounted, in order, and the layer ids of each.
pub struct MountsInfoView {
    pub targets: Seq<Seq<char>>,
    pub layers: Map<Seq<char>, Seq<Seq<char>>>,
}

/// The programs mounted by a `--layers` mount and their layers.
pub struct MountsInfo {
    targets: Vec<String>,
    layers: NameLists,
}

impl MountsInfo {
    /// The programs and their layer ids.
    pub closed spec fn view(&self) -> MountsInfoView {
        MountsInfoView { targets: strings_view(self.targets@), layers: self.layers@ }
    }

    /// No programs.
    pub fn new() -> (r: Self)
        ensures
            r@ == (MountsInfoView { targets: Seq::empty(), layers: Map::empty() }),
    {
        let r = MountsInfo { targets: Vec::new(), layers: NameLists::new() };
        proof {
            assert(strings_view(r.targets@) =~= Seq::<Seq<char>>::empty());
        }
        r
    }

    /// The programs, in the order they were mounted.
    pub fn targets(&self) -> (r: &Vec<String>)
        ensures
            strings_view(r@) == self@.targets,
    {
        &self.targets
    }

    /// The layer ids of each program.
    pub fn layers(&self) -> (r: &NameLists)
        ensures
            r@ == self@.layers,
    {
        &self.layers
    }
}

/// Work on the host that a mount needs before the container starts.
pub enum MountPrep {
    /// Create this file if it does not exist.
    CreateFile(String),
    /// Create this directory if it does not exist.
    CreateDir(String),
    /// Write this list of mounted programs, as JSON, to this file.
    WriteInfo(String, MountsInfo),
}

/// The parts of a `MountPrep`.
pub enum PrepView {
    CreateFile(Seq<char>),
    CreateDir(Seq<char>),
    WriteInfo(Seq<char>, MountsInfoView),
}

/// The view of a `MountPrep`.
pub open spec fn prep_view(p: MountPrep) -> PrepView {
    match p {
        MountPrep::CreateFile(f) => PrepView::CreateFile(f@),
        MountPrep::CreateDir(d) => PrepView::CreateDir(d@),
        MountPrep::WriteInfo(f, i) => PrepView::WriteInfo(f@, i@),
    }
}

/// The views of a list of `MountPrep`s.
pub open spec fn preps_view(v: Seq<MountPrep>) -> Seq<PrepView> {
    v.map_values(|p: MountPrep| prep_view(p))
}

/// The bind mounts and the list that the sources of a `--layers` mount
/// give, taken in order.
pub open spec fn layers_fold(
    srcs: Seq<Seq<char>>,
    built: Seq<(Seq<char>, Seq<LayerInfo>)>,
    dest: Seq<char>,
) -> (Seq<BindMountView>, MountsInfoView)
    decreases srcs.len(),
{
    if srcs.len() == 0 {
        (Seq::empty(), MountsInfoView { targets: Seq::empty(), layers: Map::empty() })
    } else {
        let (b, info) = layers_fold(srcs.drop_last(), built, dest);
        let s = srcs.last();
        let ls = built_for(built, s);
        (
            b + layer_binds(ls, dest),
            MountsInfoView {
                targets: info.targets.push(s),
                layers: info.layers.insert(s, list_or_empty(info.layers, s) + layer_ids(ls)),
            },
        )
    }
}

/// The file a `--layers` mount lists its programs in.
pub open spec fn list_file(tempdir: Seq<char>, name: Seq<char>) -> Seq<char> {
    path_join_result(tempdir, "mounts-"@ + name)
}

/// A bind mount with the default mode.
pub open spec fn plain_bind(src: Seq<char>, dst: Seq<char>) -> BindMountView {
    BindMountView { src, dst, mode: BindMode::NoIdmap }
}

/// The settings with one more bind mount, read-only or not.
pub open spec fn with_bind(sb: SpawnView, b: BindMountView, readonly: bool) -> SpawnView {
    if readonly {
        SpawnView { bind_ro: sb.bind_ro.push(b), ..sb }
    } else {
        SpawnView { bind: sb.bind.push(b), ..sb }
    }
}

/// What one mount does to the container settings and the work on the
/// host, or the error it stops with.
///
/// A mount whose name has no sources is skipped if it is optional and an
/// error otherwise. A file or simple mount takes exactly one source,
/// created on the host first, and binds it at the destination. A layers
/// mount binds every layer of every source under the destination and adds
/// a `raptor.json` that lists them. An overlay mount takes exactly one
/// source and lays its layers over the destination, read-only.
pub open spec fn mount_step(
    sb: SpawnView,
    preps: Seq<PrepView>,
    m: InstMount,
    sources: Map<Seq<char>, Seq<Seq<char>>>,
    built: Seq<(Seq<char>, Seq<LayerInfo>)>,
    tempdir: Seq<char>,
) -> Result<(SpawnView, Seq<PrepView>), RaptorError> {
    let name = m.name@;
    let dest = m.dest@;
    if !sources.contains_key(name) {
        if m.opts.optional {
            Ok((sb, preps))
        } else {
            Err(RaptorError::MountMissing(m))
        }
    } else {
        let srcs = sources[name];
        match m.opts.mtype {
            MountType::File => if srcs.len() != 1 {
                Err(RaptorError::SingleMountOnly(MountType::File))
            } else {
                Ok(
                    (
                        with_bind(sb, plain_bind(srcs[0], dest), m.opts.readonly),
                        preps.push(PrepView::CreateFile(srcs[0])),
                    ),
                )
            },
            MountType::Simple => if srcs.len() != 1 {
                Err(RaptorError::SingleMountOnly(MountType::Simple))
            } else {
                Ok(
                    (
                        with_bind(sb, plain_bind(srcs[0], dest), m.opts.readonly),
                        preps.push(PrepView::CreateDir(srcs[0])),
                    ),
                )
            },
            MountType::Layers => {
                let (b, info) = layers_fold(srcs, built, dest);
                let listfile = list_file(tempdir, name);
                Ok(
                    (
                        SpawnView {
                            bind_ro: sb.bind_ro + b + seq![
                                plain_bind(listfile, path_join_result(dest, "raptor.json"@)),
                            ],
                            ..sb
                        },
                        preps.push(PrepView::WriteInfo(listfile, info)),
                    ),
                )
            },
            MountType::Overlay => if srcs.len() != 1 {
                Err(RaptorError::SingleMountOnly(MountType::Overlay))
            } else {
                Ok(
                    (
                        SpawnView {
                            overlay_ro: sb.overlay_ro.push(
                                layer_paths(built_for(built, srcs[0])).push(dest),
                            ),
                            ..sb
                        },
                        preps,
                    ),
                )
            },
        }
    }
}

/// The mounts taken in order, stopping at the first error.
pub open spec fn spec_add_mounts(
    sb: SpawnView,
    ms: Seq<InstMount>,
    sources: Map<Seq<char>, Seq<Seq<char>>>,
    built: Seq<(Seq<char>, Seq<LayerInfo>)>,
    tempdir: Seq<char>,
) -> Result<(SpawnView, Seq<PrepView>), RaptorError>
    decreases ms.len(),
{
    if ms.len() == 0 {
        Ok((sb, Seq::empty()))
    } else {
        match spec_add_mounts(sb, ms.drop_last(), sources, built, tempdir) {
            Ok((s, p)) => mount_step(s, p, ms.last(), sources, built, tempdir),
            Err(e) => Err(e),
        }
    }
}

/// The container settings after the mounts, and the work on the host
/// that they need first.
pub struct MountPlan {
    pub builder: SpawnBuilder,
    pub prep: Vec<MountPrep>,
}

/// A copy of a mount instruction.
fn copy_mount(m: &InstMount) -> (r: InstMount)
    ensures
        r == *m,
{
    InstMount {
        opts: MountOptions {
            mtype: m.opts.mtype,
            readonly: m.opts.readonly,
            optional: m.opts.optional,
        },
        name: m.name.clone(),
        dest: m.dest.clone(),
    }
}

/// The layers built for `name`, if there is an entry for it.
fn find_built<'a>(built: &'a [(String, Vec<LayerInfo>)], name: &str) -> (r: Option<
    &'a Vec<LayerInfo>,
>)
    ensures
        match r {
            Some(ls) => find_entry(built_view(built@), name@) == Some(ls@),
            None => find_entry(built_view(built@), name@) is None,
        },
{
    let ghost e = built_view(built@);
    let mut i: usize = 0;
    proof {
        assert(e.skip(0) =~= e);
    }
    while i < built.len()
        invariant
            i <= built@.len(),
            e == built_view(built@),
            find_entry(e, name@) == find_entry(e.skip(i as int), name@),
        decreases built@.len() - i,
    {
        if str_eq(built[i].0.as_str(), name) {
            proof {
                assert(e.skip(i as int)[0] == e[i as int]);
            }
            return Some(&built[i].1);
        }
        proof {
            assert(e.skip(i as int)[0] == e[i as int]);
            assert(e.skip(i as int).drop_first() =~= e.skip(i + 1));
        }
        i = i + 1;
    }
    proof {
        assert(e.skip(i as int).len() == 0);
    }
    None
}

/// The layers of one program mounted under `dest`, and listed in `info`.
fn mount_program_layers(
    sb: SpawnBuilder,
    info: &mut MountsInfo,
    src: &String,
    ls: &Vec<LayerInfo>,
    dest: &str,
) -> (r: SpawnBuilder)
    ensures
        r.view() == (SpawnView {
            bind_ro: sb.view().bind_ro + layer_binds(ls@, dest@),
            ..sb.view()
        }),
        final(info)@ == (MountsInfoView {
            targets: old(info)@.targets.push(src@),
            layers: old(info)@.layers.insert(
                src@,
                list_or_empty(old(info)@.layers, src@) + layer_ids(ls@),
            ),
        }),
{
    let ghost l0 = info@.layers;
    let ghost t0 = info@.targets;
    info.targets.push(src.clone());
    proof {
        assert(strings_view(info.targets@) =~= t0.push(src@));
    }
    info.layers.ensure(src.as_str());
    let mut sb = sb;
    let ghost sbv = sb.view();
    let mut j: usize = 0;
    proof {
        assert(list_or_empty(l0, src@) + layer_ids(ls@.take(0)) =~= list_or_empty(l0, src@));
        assert(layer_binds(ls@.take(0), dest@) =~= Seq::<BindMountView>::empty());
        assert(sbv.bind_ro + Seq::<BindMountView>::empty() =~= sbv.bind_ro);
    }
    while j < ls.len()
        invariant
            j <= ls@.len(),
            info@.targets == t0.push(src@),
            info@.layers == l0.insert(src@, list_or_empty(l0, src@) + layer_ids(ls@.take(j as int))),
            sb.view() == (SpawnView {
                bind_ro: sbv.bind_ro + layer_binds(ls@.take(j as int), dest@),
                ..sbv
            }),
        decreases ls@.len() - j,
    {
        let l = &ls[j];
        let id = l.id();
        let path = l.done_path();
        let dst = path_join(dest, id.as_str());
        let ghost before = info@.layers;
        info.layers.add(src.as_str(), id);
        sb = sb.bind_ro(BindMount::new(path.as_str(), dst.as_str()));
        proof {
            let ids = layer_ids(ls@.take(j + 1));
            assert(ids =~= layer_ids(ls@.take(j as int)).push(layer_id(*l)));
            assert(before.contains_key(src@));
            assert(info@.layers =~= l0.insert(src@, list_or_empty(l0, src@) + ids));
            assert(layer_binds(ls@.take(j + 1), dest@) =~= layer_binds(ls@.take(j as int), dest@).push(
                plain_bind(layer_path(*l), path_join_result(dest@, layer_id(*l))),
            ));
        }
        j = j + 1;
    }
    proof {
        assert(ls@.take(ls@.len() as int) =~= ls@);
    }
    sb
}

/// Every layer of every source mounted under `dest`, and the list of the
/// sources and their layers.
fn mount_layers(
    sb: SpawnBuilder,
    srcs: &Vec<String>,
    built: &[(String, Vec<LayerInfo>)],
    dest: &str,
) -> (r: (SpawnBuilder, MountsInfo))
    ensures
        ({
            let (b, info) = layers_fold(strings_view(srcs@), built_view(built@), dest@);
            &&& r.0.view() == (SpawnView { bind_ro: sb.view().bind_ro + b, ..sb.view() })
            &&& r.1@ == info
        }),
{
    let ghost sbv = sb.view();
    let ghost bv = built_view(built@);
    let mut sb = sb;
    let mut info = MountsInfo::new();
    let mut i: usize = 0;
    proof {
        assert(strings_view(srcs@).take(0) =~= Seq::<Seq<char>>::empty());
        assert(sbv.bind_ro + Seq::<BindMountView>::empty() =~= sbv.bind_ro);
    }
    while i < srcs.len()
        invariant
            i <= srcs@.len(),
            bv == built_view(built@),
            ({
                let (b, inf) = layers_fold(strings_view(srcs@).take(i as int), bv, dest@);
                &&& sb.view() == (SpawnView { bind_ro: sbv.bind_ro + b, ..sbv })
                &&& info@ == inf
            }),
        decreases srcs@.len() - i,
    {
        let src = &srcs[i];
        let ghost prev = layers_fold(strings_view(srcs@).take(i as int), bv, dest@);
        proof {
            let t = strings_view(srcs@).take(i + 1);
            assert(t.drop_last() =~= strings_view(srcs@).take(i as int));
            assert(t.last() == src@);
        }
        match find_built(built, src.as_str()) {
            Some(ls) => {
                sb = mount_program_layers(sb, &mut info, src, ls, dest);
                proof {
                    assert(sbv.bind_ro + prev.0 + layer_binds(ls@, dest@) =~= sbv.bind_ro + (
                    prev.0 + layer_binds(ls@, dest@)));
                }
            },
            None => {
                let none: Vec<LayerInfo> = Vec::new();
                sb = mount_program_layers(sb, &mut info, src, &none, dest);
                proof {
                    assert(none@ =~= Seq::<LayerInfo>::empty());
                    assert(sbv.bind_ro + prev.0 + layer_binds(none@, dest@) =~= sbv.bind_ro + (
                    prev.0 + layer_binds(none@, dest@)));
                }
            },
        }
        i = i + 1;
    }
    proof {
        assert(strings_view(srcs@).take(srcs@.len() as int) =~= strings_view(srcs@));
    }
    (sb, info)
}

/// One mount applied to the container settings, with the work on the host
/// that it needs added to `preps`.
fn add_mount(
    sb: SpawnBuilder,
    preps: &mut Vec<MountPrep>,
    m: &InstMount,
    sources: &NameLists,
    built: &[(String, Vec<LayerInfo>)],
    tempdir: &str,
) -> (r: Result<SpawnBuilder, RaptorError>)
    ensures
        match mount_step(
            sb.view(),
            preps_view(old(preps)@),
            *m,
            sources@,
            built_view(built@),
            tempdir@,
        ) {
            Ok((s, p)) => r matches Ok(b) && b.view() == s && preps_view(final(preps)@) == p,
            Err(e) => r == Err::<SpawnBuilder, RaptorError>(e),
        },
{
    let ghost p0 = preps_view(preps@);
    let ghost sb0 = sb.view();
    let srcs = match sources.get(m.name.as_str()) {
        Some(v) => v,
        None => {
            if m.opts.optional {
                return Ok(sb);
            }
            return Err(RaptorError::MountMissing(copy_mount(m)));
        },
    };
    let ghost sv = strings_view(srcs@);
    match m.opts.mtype {
        MountType::File | MountType::Simple => {
            if srcs.len() != 1 {
                return Err(RaptorError::SingleMountOnly(m.opts.mtype));
            }
            let bind = BindMount::new(srcs[0].as_str(), m.dest.as_str());
            let sb = if m.opts.readonly {
                sb.bind_ro(bind)
            } else {
                sb.bind(bind)
            };
            let prep = match m.opts.mtype {
                MountType::File => MountPrep::CreateFile(srcs[0].clone()),
                _ => MountPrep::CreateDir(srcs[0].clone()),
            };
            preps.push(prep);
            proof {
                assert(sv[0] == srcs@[0]@);
                assert(preps_view(preps@) =~= p0.push(prep_view(prep)));
            }
            Ok(sb)
        },
        MountType::Layers => {
            let (sb, info) = mount_layers(sb, srcs, built, m.dest.as_str());
            let mut fname = String::new();
            push_str(&mut fname, "mounts-");
            push_str(&mut fname, m.name.as_str());
            proof {
                reveal_strlit("mounts-");
            }
            let listfile = path_join(tempdir, fname.as_str());
            let dst = path_join(m.dest.as_str(), "raptor.json");
            let sb = sb.bind_ro(BindMount::new(listfile.as_str(), dst.as_str()));
            let ghost info_v = info@;
            let prep = MountPrep::WriteInfo(listfile, info);
            preps.push(prep);
            proof {
                assert(fname@ =~= "mounts-"@ + m.name@);
                assert(preps_view(preps@) =~= p0.push(prep_view(prep)));
                let (b, _) = layers_fold(sv, built_view(built@), m.dest@);
                let last = plain_bind(list_file(tempdir@, m.name@), path_join_result(m.dest@, "raptor.json"@));
                assert(sb.view().bind_ro =~= sb0.bind_ro + b + seq![last]);
            }
            Ok(sb)
        },
        MountType::Overlay => {
            if srcs.len() != 1 {
                return Err(RaptorError::SingleMountOnly(MountType::Overlay));
            }
            let mut paths: Vec<String> = Vec::new();
            let none: Vec<LayerInfo> = Vec::new();
            let ls = match find_built(built, srcs[0].as_str()) {
                Some(ls) => ls,
                None => &none,
            };
            proof {
                assert(none@ =~= Seq::<LayerInfo>::empty());
                assert(ls@ == built_for(built_view(built@), sv[0]));
            }
            let mut j: usize = 0;
            while j < ls.len()
                invariant
                    j <= ls@.len(),
                    strings_view(paths@) == layer_paths(ls@.take(j as int)),
                decreases ls@.len() - j,
            {
                let path = ls[j].done_path();
                paths.push(path);
                proof {
                    assert(layer_paths(ls@.take(j + 1)) =~= layer_paths(ls@.take(j as int)).push(
                        layer_path(ls@[j as int]),
                    ));
                    assert(strings_view(paths@) =~= layer_paths(ls@.take(j + 1)));
                }
                j = j + 1;
            }
            proof {
                assert(ls@.take(ls@.len() as int) =~= ls@);
            }
            Ok(sb.overlay_ro(paths.as_slice(), m.dest.as_str()))
        },
    }
}

/// The mount instructions behind a list of references.
pub open spec fn mounts_view(ms: Seq<&InstMount>) -> Seq<InstMount> {
    ms.map_values(|m: &InstMount| *m)
}

impl SpawnBuilder {
    /// Applies the mounts of a program, in order, with `sources` giving
    /// the sources of each mount name, `built` the layers of each program
    /// that a layers or overlay mount uses (a program without an entry has
    /// none), and `tempdir` the directory for the lists of layers mounts.
    /// Stops at the first mount that fails. The plan holds the settings
    /// and the files and directories to create or write on the host before
    /// the container starts. Nothing is created here: where a mount fails,
    /// no file or directory of the mounts before it has been made yet.
    pub fn add_mounts(
        self,
        prog_mounts: &[&InstMount],
        sources: &NameLists,
        built: &[(String, Vec<LayerInfo>)],
        tempdir: &str,
    ) -> (r: Result<MountPlan, RaptorError>)
        ensures
            match spec_add_mounts(
                self.view(),
                mounts_view(prog_mounts@),
                sources@,
                built_view(built@),
                tempdir@,
            ) {
                Ok((s, p)) => r matches Ok(plan) && plan.builder.view() == s && preps_view(
                    plan.prep@,
                ) == p,
                Err(e) => r == Err::<MountPlan, RaptorError>(e),
            },
    {
        let ghost ms = mounts_view(prog_mounts@);
        let ghost start = self.view();
        let mut sb = self;
        let mut prep: Vec<MountPrep> = Vec::new();
        let mut i: usize = 0;
        proof {
            assert(ms.take(0) =~= Seq::<InstMount>::empty());
            assert(preps_view(prep@) =~= Seq::<PrepView>::empty());
        }
        while i < prog_mounts.len()
            invariant
                i <= prog_mounts@.len(),
                ms == mounts_view(prog_mounts@),
                start == self.view(),
                spec_add_mounts(start, ms.take(i as int), sources@, built_view(built@), tempdir@)
                    == Ok::<(SpawnView, Seq<PrepView>), RaptorError>((sb.view(), preps_view(prep@))),
            decreases prog_mounts@.len() - i,
        {
            proof {
                assert(ms.take(i + 1).drop_last() =~= ms.take(i as int));
                assert(ms.take(i + 1).last() == *prog_mounts@[i as int]);
            }
            let ghost sbv = sb.view();
            let ghost pv = preps_view(prep@);
            match add_mount(sb, &mut prep, prog_mounts[i], sources, built, tempdir) {
                Ok(b) => {
                    sb = b;
                },
                Err(e) => {
                    proof {
                        assert(spec_add_mounts(
                            start,
                            ms.take(i + 1),
                            sources@,
                            built_view(built@),
                            tempdir@,
                        ) == mount_step(sbv, pv, ms[i as int], sources@, built_view(built@), tempdir@));
                        lemma_add_mounts_stops(
                            start,
                            ms,
                            i as int + 1,
                            sources@,
                            built_view(built@),
                            tempdir@,
                        );
                    }
                    return Err(e);
                },
            }
            i = i + 1;
        }
        proof {
            assert(ms.take(prog_mounts@.len() as int) =~= ms);
        }
        Ok(MountPlan { builder: sb, prep })
    }
}

/// Once a mount fails, the mounts after it change nothing: the error
/// stands.
proof fn lemma_add_mounts_stops(
    sb: SpawnView,
    ms: Seq<InstMount>,
    n: int,
    sources: Map<Seq<char>, Seq<Seq<char>>>,
    built: Seq<(Seq<char>, Seq<LayerInfo>)>,
    tempdir: Seq<char>,
)
    requires
        0 <= n <= ms.len(),
        spec_add_mounts(sb, ms.take(n), sources, built, tempdir) is Err,
    ensures
        spec_add_mounts(sb, ms, sources, built, tempdir) == spec_add_mounts(
            sb,
            ms.take(n),
            sources,
            built,
            tempdir,
        ),
    decreases ms.len() - n,
{
    if n < ms.len() {
        assert(ms.take(n + 1).drop_last() =~= ms.take(n));
        lemma_add_mounts_stops(sb, ms, n + 1, sources, built, tempdir);
    } else {
        assert(ms.take(n) =~= ms);
    }
}

/// Every mount is optional and none of their names has sources.
pub open spec fn all_optional_missing(
    ms: Seq<InstMount>,
    sources: Map<Seq<char>, Seq<Seq<char>>>,
) -> bool {
    forall|i: int|
        0 <= i < ms.len() ==> (#[trigger] ms[i]).opts.optional && !sources.contains_key(ms[i].name@)
}

/// Optional mounts without sources change nothing: the settings stay as
/// they are and nothing is asked of the host.
pub proof fn lemma_missing_optional_mounts(
    sb: SpawnView,
    ms: Seq<InstMount>,
    sources: Map<Seq<char>, Seq<Seq<char>>>,
    built: Seq<(Seq<char>, Seq<LayerInfo>)>,
    tempdir: Seq<char>,
)
    requires
        all_optional_missing(ms, sources),
    ensures
        spec_add_mounts(sb, ms, sources, built, tempdir) == Ok::<
            (SpawnView, Seq<PrepView>),
            RaptorError,
        >((sb, Seq::empty())),
    decreases ms.len(),
{
    if ms.len() > 0 {
        let rest = ms.drop_last();
        assert forall|i: int| 0 <= i < rest.len() implies (#[trigger] rest[i]).opts.optional
            && !sources.contains_key(rest[i].name@) by {
            assert(rest[i] == ms[i]);
        }
        lemma_missing_optional_mounts(sb, rest, sources, built, tempdir);
        assert(ms.last() == ms[ms.len() - 1]);
    }
}

/// A required mount whose name has no sources stops the mounts with an
/// error naming it, whatever comes after it.
pub proof fn lemma_missing_required_mount(
    sb: SpawnView,
    ms: Seq<InstMount>,
    sources: Map<Seq<char>, Seq<Seq<char>>>,
    built: Seq<(Seq<char>, Seq<LayerInfo>)>,
    tempdir: Seq<char>,
)
    requires
        ms.len() > 0,
        all_optional_missing(ms.drop_last(), sources),
        !ms.last().opts.optional,
        !sources.contains_key(ms.last().name@),
    ensures
        spec_add_mounts(sb, ms, sources, built, tempdir) == Err::<
            (SpawnView, Seq<PrepView>),
            RaptorError,
        >(RaptorError::MountMissing(ms.last())),
{
    lemma_missing_optional_mounts(sb, ms.drop_last(), sources, built, tempdir);
}

/// A file or simple mount with one source binds that source at the
/// mount's destination: among the read-only binds exactly when the mount
/// is read-only, and among the writable binds otherwise; the other list
/// is left as it was.
pub proof fn lemma_plain_mount_readonly(
    sb: SpawnView,
    preps: Seq<PrepView>,
    m: InstMount,
    sources: Map<Seq<char>, Seq<Seq<char>>>,
    built: Seq<(Seq<char>, Seq<LayerInfo>)>,
    tempdir: Seq<char>,
)
    requires
        m.opts.mtype is File || m.opts.mtype is Simple,
        sources.contains_key(m.name@),
        sources[m.name@].len() == 1,
    ensures
        ({
            let b = BindMountView {
                src: sources[m.name@][0],
                dst: m.dest@,
                mode: BindMode::NoIdmap,
            };
            mount_step(sb, preps, m, sources, built, tempdir) matches Ok((s, _)) && if m.opts.readonly {
                s.bind_ro == sb.bind_ro.push(b) && s.bind == sb.bind
            } else {
                s.bind == sb.bind.push(b) && s.bind_ro == sb.bind_ro
            }
        }),
{
}

} // verus!
