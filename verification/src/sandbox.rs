//! The build sandbox: a container that runs the `falcon` client, which
//! carries out build steps on request.
use vstd::prelude::*;

use crate::envmap::spec_insert;
use crate::mounts::plain_bind;
use crate::nspawn::{hex_lower, uuid_to_simple_string, BindMount, SpawnBuilder, SpawnView};
use crate::paths::{is_absolute, path_join, path_join_result};
use crate::text::{push_str, strings_view};

verus! {

/// Where the `falcon` client binary is taken from.
pub const FALCON_PATH: &'static str = "target/x86_64-unknown-linux-musl/release/falcon";

/// The name under which the connection directory of the sandbox with the
/// given id appears in it: `raptor-` and the id in hexadecimal.
pub open spec fn conn_name(uuid: u128) -> Seq<char> {
    "raptor-"@ + hex_lower(uuid as nat, 32)
}

/// Where the connection directory appears inside the sandbox.
pub open spec fn int_root(uuid: u128) -> Seq<char> {
    seq!['/'] + conn_name(uuid)
}

/// The paths of a sandbox and the settings of its container.
pub struct SandboxSetup {
    /// The container settings.
    pub builder: SpawnBuilder,
    /// The empty root directory, which must hold `usr`.
    pub root: String,
    /// The socket on which `falcon` connects, on the host.
    pub ext_socket: String,
    /// Where the `falcon` binary is placed, on the host.
    pub ext_client: String,
    /// Where the connection directory shows up in the layer being built.
    pub mount: String,
}

/// The settings of a sandbox with id `uuid` on top of `layers`, writing
/// to `rootdir`, with `tempdir` for its empty root and `conndir` for the
/// `falcon` binary and socket. The stack of layers sits on an empty
/// directory; the connection directory is mounted read-only at
/// `/raptor-ID`; the container runs `falcon` from there, told where the
/// socket is by `FALCON_SOCKET`.
pub fn sandbox_setup(
    spawn: SpawnBuilder,
    layers: &[String],
    rootdir: &str,
    tempdir: &str,
    conndir: &str,
    uuid: u128,
) -> (r: SandboxSetup)
    ensures
        r.root@ == path_join_result(tempdir@, "root"@),
        r.ext_socket@ == path_join_result(conndir@, "raptor"@),
        r.ext_client@ == path_join_result(conndir@, "falcon"@),
        r.mount@ == path_join_result(rootdir@, conn_name(uuid)),
        r.builder.view() == (SpawnView {
            uuid: Some(uuid),
            root_overlay: spawn.view().root_overlay.push(tempdir@) + strings_view(layers@).push(
                rootdir@,
            ),
            bind_ro: spawn.view().bind_ro.push(plain_bind(conndir@, int_root(uuid))),
            directory: Some(path_join_result(tempdir@, "root"@)),
            environment: spec_insert(
                spawn.view().environment,
                "FALCON_SOCKET"@,
                int_root(uuid) + "/raptor"@,
            ),
            args: spawn.view().args.push(int_root(uuid) + "/falcon"@),
            ..spawn.view()
        }),
{
    let uuid_name = uuid_to_simple_string(uuid);
    let root = path_join(tempdir, "root");
    let mut name = String::new();
    push_str(&mut name, "raptor-");
    push_str(&mut name, uuid_name.as_str());
    let mut int_root_path = String::new();
    push_str(&mut int_root_path, "/");
    push_str(&mut int_root_path, name.as_str());
    proof {
        reveal_strlit("raptor-");
        reveal_strlit("/");
        reveal_strlit("raptor");
        reveal_strlit("falcon");
        reveal_strlit("/raptor");
        reveal_strlit("/falcon");
        assert(name@ =~= conn_name(uuid));
        assert(int_root_path@ =~= int_root(uuid));
        assert(int_root_path@.last() != '/');
        assert(!is_absolute("raptor"@));
        assert(!is_absolute("falcon"@));
    }
    let ext_socket = path_join(conndir, "raptor");
    let ext_client = path_join(conndir, "falcon");
    let int_socket = path_join(int_root_path.as_str(), "raptor");
    let int_client = path_join(int_root_path.as_str(), "falcon");
    proof {
        assert(int_socket@ =~= int_root(uuid) + "/raptor"@);
        assert(int_client@ =~= int_root(uuid) + "/falcon"@);
    }
    let builder = spawn.uuid(uuid).root_overlay(tempdir).root_overlays(layers).root_overlay(
        rootdir,
    ).bind_ro(BindMount::new(conndir, int_root_path.as_str())).directory(root.as_str()).setenv(
        "FALCON_SOCKET",
        int_socket.as_str(),
    ).arg(int_client.as_str());
    let mount = path_join(rootdir, name.as_str());
    SandboxSetup { builder, root, ext_socket, ext_client, mount }
}

} // verus!
