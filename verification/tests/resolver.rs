use raptor::dsl::Origin;
use raptor::error::{RaptorError, RaptorResult};
use raptor::resolver::{ModuleName, ModuleRoot, Resolver};

fn check(resolv: &Resolver, origin: &Origin, name: &str, expected: [&str; 3]) -> RaptorResult<()> {
    let rel = ModuleRoot::Relative;
    let abs = ModuleRoot::Absolute;
    let pkg = ModuleRoot::Package(String::from("pkg"));
    assert_eq!(resolv.to_path(&rel, origin, name)?, expected[0]);
    assert_eq!(resolv.to_path(&abs, origin, name)?, expected[1]);
    assert_eq!(resolv.to_path(&pkg, origin, name)?, expected[2]);
    Ok(())
}

#[test]
fn resolve_inline() -> RaptorResult<()> {
    let mut resolv = Resolver::new(String::new());
    resolv.add_package("pkg".into(), "pkgpath".into());

    let inline = Origin::inline();
    let name = "name";

    check(&resolv, &inline, name, ["name", "name", "pkgpath/name"])?;
    resolv.set_base("base");
    check(&resolv, &inline, name, ["name", "name", "pkgpath/name"])?;

    Ok(())
}

#[test]
fn resolve_base() -> RaptorResult<()> {
    let mut resolv = Resolver::new(String::new());
    resolv.add_package("pkg".into(), "pkgpath".into());

    let inline = Origin::make("base/foo.rapt", 0..0);
    let name = "name";

    check(&resolv, &inline, name, ["base/name", "name", "pkgpath/name"])?;
    resolv.set_base("base");
    check(&resolv, &inline, name, ["base/name", "name", "pkgpath/name"])?;

    Ok(())
}

#[test]
fn resolve_missing_package() {
    let resolv = Resolver::new(String::new());
    let origin = Origin::make("base/foo.rapt", 0..0);
    let res = resolv.to_path(&ModuleRoot::Package("nope".into()), &origin, "name");
    assert!(matches!(res, Err(RaptorError::PackageNotFound(ref n, _)) if n == "nope"));
}

#[test]
fn resolve_no_parent() {
    let resolv = Resolver::new(String::new());
    let origin = Origin::make("/", 0..0);
    let res = resolv.to_path(&ModuleRoot::Relative, &origin, "name");
    assert!(matches!(res, Err(RaptorError::BadPathNoParent(ref p)) if p == "/"));
}

#[test]
fn resolve_package_replaced() {
    let mut resolv = Resolver::new(String::new());
    resolv.add_package("pkg".into(), "first".into());
    resolv.add_package("pkg".into(), "second".into());
    assert_eq!(resolv.get_package("pkg").map(String::as_str), Some("second"));
    assert_eq!(resolv.get_package("other"), None);
}

#[test]
fn resolve_program_and_include_paths() -> RaptorResult<()> {
    let resolv = Resolver::new(String::from("base"));
    let origin = Origin::make("dir/main.rapt", 0..0);
    let name = ModuleName::new(vec!["sub".into(), "prog".into()]);
    assert_eq!(resolv.to_program_path(&name, &origin)?, "dir/sub/prog.rapt");
    assert_eq!(resolv.to_include_path(&name, &origin)?, "dir/sub/prog.rinc");
    assert_eq!(resolv.path("x"), "base/x");
    assert_eq!(resolv.base(), "base");
    Ok(())
}

#[test]
fn resolve_logical_paths() -> RaptorResult<()> {
    let mut resolv = Resolver::new(String::new());
    resolv.add_package("lib".into(), "/opt/lib".into());
    assert_eq!(resolv.resolve_logical_path("$lib/file")?, "/opt/lib/file");
    assert_eq!(resolv.resolve_logical_path("a/b")?, "a/b");
    let res = resolv.resolve_logical_path("$missing/file");
    assert!(matches!(res, Err(RaptorError::MissingLink(ref n)) if n == "$missing"));
    Ok(())
}
