use raptor::dsl::{InstMount, MountOptions, MountType};
use raptor::error::{RaptorError, RaptorResult};
use raptor::layer::LayerInfo;
use raptor::mounts::MountPrep;
use raptor::names::NameLists;
use raptor::nspawn::SpawnBuilder;

fn sources(name: &str, src: &str) -> NameLists {
    let mut m = NameLists::new();
    m.add(name, src.to_string());
    m
}

fn file_mount(readonly: bool, optional: bool) -> InstMount {
    InstMount {
        opts: MountOptions {
            mtype: MountType::File,
            readonly,
            optional,
        },
        name: "foo1".into(),
        dest: "bar".into(),
    }
}

#[test]
fn add_mounts() -> RaptorResult<()> {
    let mut mount = file_mount(false, false);

    let mounts1 = sources("foo1", "foo-src");
    let mounts2 = sources("foo2", "foo-src");

    // required mount (exists)
    let sb = SpawnBuilder::new().add_mounts(&[&mount], &mounts1, &[], "/tmp")?;
    assert_eq!(sb.builder.bind_mounts().len(), 1);

    // required mount (missing)
    let sb = SpawnBuilder::new().add_mounts(&[&mount], &mounts2, &[], "/tmp");
    assert!(matches!(sb.err().unwrap(), RaptorError::MountMissing(_)));

    // optional mounts below
    mount.opts.optional = true;

    // optional mount (exists)
    let sb = SpawnBuilder::new().add_mounts(&[&mount], &mounts1, &[], "/tmp")?;
    assert_eq!(sb.builder.bind_mounts().len(), 1);

    // optional mount (missing)
    let sb = SpawnBuilder::new().add_mounts(&[&mount], &mounts2, &[], "/tmp")?;
    assert_eq!(sb.builder.bind_mounts().len(), 0);

    Ok(())
}

#[test]
fn add_mounts_ro() -> RaptorResult<()> {
    let mut mount = file_mount(true, false);

    let mounts1 = sources("foo1", "foo-src");
    let mounts2 = sources("foo2", "foo-src");

    // required mount (exists)
    let sb = SpawnBuilder::new().add_mounts(&[&mount], &mounts1, &[], "/tmp")?;
    assert_eq!(sb.builder.bind_ro_mounts().len(), 1);

    // required mount (missing)
    let sb = SpawnBuilder::new().add_mounts(&[&mount], &mounts2, &[], "/tmp");
    assert!(matches!(sb.err().unwrap(), RaptorError::MountMissing(_)));

    // optional mounts below
    mount.opts.optional = true;

    // optional mount (exists)
    let sb = SpawnBuilder::new().add_mounts(&[&mount], &mounts1, &[], "/tmp")?;
    assert_eq!(sb.builder.bind_ro_mounts().len(), 1);

    // optional mount (missing)
    let sb = SpawnBuilder::new().add_mounts(&[&mount], &mounts2, &[], "/tmp")?;
    assert_eq!(sb.builder.bind_ro_mounts().len(), 0);

    Ok(())
}

#[test]
fn file_mount_creates_file_and_binds() -> RaptorResult<()> {
    let mount = file_mount(false, false);
    let plan = SpawnBuilder::new().add_mounts(&[&mount], &sources("foo1", "foo-src"), &[], "/tmp")?;
    assert_eq!(plan.builder.bind_mounts()[0].to_string(), "foo-src:bar");
    assert_eq!(plan.prep.len(), 1);
    assert!(matches!(&plan.prep[0], MountPrep::CreateFile(f) if f == "foo-src"));
    Ok(())
}

#[test]
fn simple_mount_creates_dir() -> RaptorResult<()> {
    let mut mount = file_mount(false, false);
    mount.opts.mtype = MountType::Simple;
    let plan = SpawnBuilder::new().add_mounts(&[&mount], &sources("foo1", "/data"), &[], "/tmp")?;
    assert!(matches!(&plan.prep[0], MountPrep::CreateDir(d) if d == "/data"));
    assert_eq!(plan.builder.build_with_uuid(0)[0..1], ["systemd-nspawn".to_string()]);
    Ok(())
}

#[test]
fn single_mount_only() {
    let mut mount = file_mount(false, false);
    let mut two = sources("foo1", "a");
    two.add("foo1", "b".to_string());
    let res = SpawnBuilder::new().add_mounts(&[&mount], &two, &[], "/tmp");
    assert!(matches!(res.err().unwrap(), RaptorError::SingleMountOnly(MountType::File)));
    mount.opts.mtype = MountType::Overlay;
    let res = SpawnBuilder::new().add_mounts(&[&mount], &two, &[], "/tmp");
    assert!(matches!(res.err().unwrap(), RaptorError::SingleMountOnly(MountType::Overlay)));
}

#[test]
fn layers_mount_binds_each_layer() -> RaptorResult<()> {
    let mut mount = file_mount(false, false);
    mount.opts.mtype = MountType::Layers;
    mount.dest = "/layers".into();
    let built = vec![(
        "prog".to_string(),
        vec![
            LayerInfo::new("base".into(), 1),
            LayerInfo::new("prog".into(), 2),
        ],
    )];
    let plan = SpawnBuilder::new().add_mounts(&[&mount], &sources("foo1", "prog"), &built, "/tmp")?;
    let ro = plan.builder.bind_ro_mounts();
    assert_eq!(ro.len(), 3);
    assert_eq!(
        ro[0].to_string(),
        "layers/base-0000000000000001:/layers/base-0000000000000001"
    );
    assert_eq!(ro[2].to_string(), "/tmp/mounts-foo1:/layers/raptor.json");
    match &plan.prep[0] {
        MountPrep::WriteInfo(path, info) => {
            assert_eq!(path, "/tmp/mounts-foo1");
            assert_eq!(info.targets(), &vec!["prog".to_string()]);
            assert_eq!(
                info.layers().get("prog"),
                Some(&vec![
                    "base-0000000000000001".to_string(),
                    "prog-0000000000000002".to_string()
                ])
            );
        }
        _ => panic!("expected a list of layers"),
    }
    Ok(())
}

#[test]
fn overlay_mount() -> RaptorResult<()> {
    let mut mount = file_mount(false, false);
    mount.opts.mtype = MountType::Overlay;
    let built = vec![("prog".to_string(), vec![LayerInfo::new("prog".into(), 3)])];
    let plan = SpawnBuilder::new().add_mounts(&[&mount], &sources("foo1", "prog"), &built, "/tmp")?;
    let args = plan.builder.build_with_uuid(0);
    assert!(args.contains(&"--overlay-ro".to_string()));
    assert!(args.contains(&"layers/prog-0000000000000003:bar".to_string()));
    assert!(plan.prep.is_empty());
    Ok(())
}
