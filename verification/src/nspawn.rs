//! The command line for `systemd-nspawn`: its option values, bind mounts,
//! and a builder that assembles the argument list.
use vstd::prelude::*;

use crate::envmap::{entries_view, sorted, spec_insert, EnvMap};
use crate::escape::{escape_colon, spec_escape_colon};
use crate::layer::hex_upper;
use crate::paths::{clean_components, clean_path, same_path};
use crate::text::{clone_strings, join_with, push_char, push_str, spec_join, strings_view};

verus! {

/// How the container's console is attached.
#[derive(Copy, Clone, Debug, PartialEq, Eq, Structural)]
pub enum ConsoleMode {
    Interactive,
    ReadOnly,
    Passive,
    Pipe,
    Autopipe,
}

/// Whether `.nspawn` settings files are used.
#[derive(Copy, Clone, Debug, PartialEq, Eq, Structural)]
pub enum Settings {
    True,
    False,
    Override,
    Trusted,
}

/// How the container's journal is linked to the host.
#[derive(Copy, Clone, Debug, PartialEq, Eq, Structural)]
pub enum LinkJournal {
    No,
    Host,
    TryHost,
    Guest,
    TryGuest,
    Auto,
}

/// How `/etc/resolv.conf` is provided in the container.
#[derive(Copy, Clone, Debug, PartialEq, Eq, Structural)]
pub enum ResolvConf {
    Off,
    CopyHost,
    CopyStatic,
    CopyUplink,
    CopyStub,
    ReplaceHost,
    ReplaceStatic,
    ReplaceUplink,
    ReplaceStub,
    BindHost,
    BindStatic,
    BindUplink,
    BindStub,
    Delete,
    Auto,
}

/// How `/etc/localtime` is provided in the container.
#[derive(Copy, Clone, Debug, PartialEq, Eq, Structural)]
pub enum Timezone {
    Off,
    Copy,
    Bind,
    Symlink,
    Delete,
    Auto,
}

/// The option value `systemd-nspawn` takes for a console mode.
pub open spec fn console_name(m: ConsoleMode) -> Seq<char> {
    match m {
        ConsoleMode::Interactive => "interactive"@,
        ConsoleMode::ReadOnly => "read-only"@,
        ConsoleMode::Passive => "passive"@,
        ConsoleMode::Pipe => "pipe"@,
        ConsoleMode::Autopipe => "autopipe"@,
    }
}

/// The option value `systemd-nspawn` takes for a settings mode.
pub open spec fn settings_name(m: Settings) -> Seq<char> {
    match m {
        Settings::True => "true"@,
        Settings::False => "false"@,
        Settings::Override => "override"@,
        Settings::Trusted => "trusted"@,
    }
}

/// The option value `systemd-nspawn` takes for a journal link mode.
pub open spec fn link_journal_name(m: LinkJournal) -> Seq<char> {
    match m {
        LinkJournal::No => "no"@,
        LinkJournal::Host => "host"@,
        LinkJournal::TryHost => "try-host"@,
        LinkJournal::Guest => "guest"@,
        LinkJournal::TryGuest => "try-guest"@,
        LinkJournal::Auto => "auto"@,
    }
}

/// The option value `systemd-nspawn` takes for a resolv.conf mode.
pub open spec fn resolv_conf_name(m: ResolvConf) -> Seq<char> {
    match m {
        ResolvConf::Off => "off"@,
        ResolvConf::CopyHost => "copy-host"@,
        ResolvConf::CopyStatic => "copy-static"@,
        ResolvConf::CopyUplink => "copy-uplink"@,
        ResolvConf::CopyStub => "copy-stub"@,
        ResolvConf::ReplaceHost => "replace-host"@,
        ResolvConf::ReplaceStatic => "replace-static"@,
        ResolvConf::ReplaceUplink => "replace-uplink"@,
        ResolvConf::ReplaceStub => "replace-stub"@,
        ResolvConf::BindHost => "bind-host"@,
        ResolvConf::BindStatic => "bind-static"@,
        ResolvConf::BindUplink => "bind-uplink"@,
        ResolvConf::BindStub => "bind-stub"@,
        ResolvConf::Delete => "delete"@,
        ResolvConf::Auto => "auto"@,
    }
}

/// The option value `systemd-nspawn` takes for a timezone mode.
pub open spec fn timezone_name(m: Timezone) -> Seq<char> {
    match m {
        Timezone::Off => "off"@,
        Timezone::Copy => "copy"@,
        Timezone::Bind => "bind"@,
        Timezone::Symlink => "symlink"@,
        Timezone::Delete => "delete"@,
        Timezone::Auto => "auto"@,
    }
}

impl ConsoleMode {
    /// The option value for this mode (the variant name in kebab case).
    pub fn variant_name(&self) -> (r: &'static str)
        ensures
            r@ == console_name(*self),
    {
        match self {
            ConsoleMode::Interactive => "interactive",
            ConsoleMode::ReadOnly => "read-only",
            ConsoleMode::Passive => "passive",
            ConsoleMode::Pipe => "pipe",
            ConsoleMode::Autopipe => "autopipe",
        }
    }
}

impl Settings {
    /// The option value for this mode (the variant name in kebab case).
    pub fn variant_name(&self) -> (r: &'static str)
        ensures
            r@ == settings_name(*self),
    {
        match self {
            Settings::True => "true",
            Settings::False => "false",
            Settings::Override => "override",
            Settings::Trusted => "trusted",
        }
    }
}

impl LinkJournal {
    /// The option value for this mode (the variant name in kebab case).
    pub fn variant_name(&self) -> (r: &'static str)
        ensures
            r@ == link_journal_name(*self),
    {
        match self {
            LinkJournal::No => "no",
            LinkJournal::Host => "host",
            LinkJournal::TryHost => "try-host",
            LinkJournal::Guest => "guest",
            LinkJournal::TryGuest => "try-guest",
            LinkJournal::Auto => "auto",
        }
    }
}

impl ResolvConf {
    /// The option value for this mode (the variant name in kebab case).
    pub fn variant_name(&self) -> (r: &'static str)
        ensures
            r@ == resolv_conf_name(*self),
    {
        match self {
            ResolvConf::Off => "off",
            ResolvConf::CopyHost => "copy-host",
            ResolvConf::CopyStatic => "copy-static",
            ResolvConf::CopyUplink => "copy-uplink",
            ResolvConf::CopyStub => "copy-stub",
            ResolvConf::ReplaceHost => "replace-host",
            ResolvConf::ReplaceStatic => "replace-static",
            ResolvConf::ReplaceUplink => "replace-uplink",
            ResolvConf::ReplaceStub => "replace-stub",
            ResolvConf::BindHost => "bind-host",
            ResolvConf::BindStatic => "bind-static",
            ResolvConf::BindUplink => "bind-uplink",
            ResolvConf::BindStub => "bind-stub",
            ResolvConf::Delete => "delete",
            ResolvConf::Auto => "auto",
        }
    }
}

impl Timezone {
    /// The option value for this mode (the variant name in kebab case).
    pub fn variant_name(&self) -> (r: &'static str)
        ensures
            r@ == timezone_name(*self),
    {
        match self {
            Timezone::Off => "off",
            Timezone::Copy => "copy",
            Timezone::Bind => "bind",
            Timezone::Symlink => "symlink",
            Timezone::Delete => "delete",
            Timezone::Auto => "auto",
        }
    }
}

/// How user ids are mapped in a bind mount.
#[derive(Copy, Clone, Debug, Default, PartialEq, Eq, Structural)]
pub enum BindMode {
    #[default]
    NoIdmap,
    Idmap,
    RootIdmap,
    OwnerIdmap,
}

/// The mode that needs no mention on the command line.
pub const BIND_MODE_DEFAULT: BindMode = BindMode::NoIdmap;

/// The option text of a bind mode.
pub open spec fn bind_mode_name(m: BindMode) -> Seq<char> {
    match m {
        BindMode::NoIdmap => "noidmap"@,
        BindMode::Idmap => "idmap"@,
        BindMode::RootIdmap => "rootidmap"@,
        BindMode::OwnerIdmap => "owneridmap"@,
    }
}

impl BindMode {
    /// The option text of this mode.
    pub fn to_string(&self) -> (r: String)
        ensures
            r@ == bind_mode_name(*self),
    {
        let s = match self {
            BindMode::NoIdmap => "noidmap",
            BindMode::Idmap => "idmap",
            BindMode::RootIdmap => "rootidmap",
            BindMode::OwnerIdmap => "owneridmap",
        };
        s.to_owned()
    }
}

/// Compares two paths as `Utf8Path == Utf8Path` does: component by
/// component (so `a//b` equals `a/b`). On Unix each component is one of
/// `/`, `.`, `..` or a name, so two paths are equal exactly when their
/// components, as strings, are; equal strings are equal paths, and two
/// clean paths are equal when their root and parts are.
#[verifier::external_body]
pub(crate) fn paths_equal(a: &str, b: &str) -> (r: bool)
    ensures
        r == same_path(a@, b@),
        a@ == b@ ==> r,
        clean_path(a@) && clean_path(b@) ==> r == (clean_components(a@) == clean_components(b@)),
{
    camino::Utf8Path::new(a) == camino::Utf8Path::new(b)
}

/// A directory of the host made visible inside the container.
#[derive(Clone, Debug)]
pub struct BindMount {
    src: String,
    dst: String,
    mode: BindMode,
}

/// The parts of a bind mount.
pub struct BindMountView {
    pub src: Seq<char>,
    pub dst: Seq<char>,
    pub mode: BindMode,
}

/// The `--bind` argument for a mount: the source, then `:DEST` when the
/// destination differs or a mode is given, then `:MODE` when a mode is
/// given; colons in paths escaped.
pub open spec fn bind_text(m: BindMountView) -> Seq<char> {
    spec_escape_colon(m.src) + (if m.mode != BindMode::NoIdmap || !same_path(
        m.src,
        m.dst,
    ) {
        seq![':'] + spec_escape_colon(m.dst)
    } else {
        Seq::empty()
    }) + (if m.mode != BindMode::NoIdmap {
        seq![':'] + bind_mode_name(m.mode)
    } else {
        Seq::empty()
    })
}

impl BindMount {
    /// The parts of this mount.
    pub closed spec fn view(&self) -> BindMountView {
        BindMountView { src: self.src@, dst: self.dst@, mode: self.mode }
    }

    /// Mounts `src` at `dst`, with the default mode.
    pub fn new(src: &str, dst: &str) -> (r: Self)
        ensures
            r.view() == (BindMountView { src: src@, dst: dst@, mode: BindMode::NoIdmap }),
    {
        BindMount { src: src.to_owned(), dst: dst.to_owned(), mode: BIND_MODE_DEFAULT }
    }

    /// The same mount with another mode.
    pub fn with_mode(self, mode: BindMode) -> (r: Self)
        ensures
            r.view() == (BindMountView { mode, ..self.view() }),
    {
        BindMount { mode, ..self }
    }

    /// The `--bind` argument for this mount.
    pub fn to_string(&self) -> (r: String)
        ensures
            r@ == bind_text(self.view()),
    {
        let mut res = escape_colon(self.src.as_str());
        let default = match self.mode {
            BindMode::NoIdmap => true,
            _ => false,
        };
        if !default || !paths_equal(self.src.as_str(), self.dst.as_str()) {
            push_char(&mut res, ':');
            let d = escape_colon(self.dst.as_str());
            push_str(&mut res, d.as_str());
        }
        if !default {
            push_char(&mut res, ':');
            let m = self.mode.to_string();
            push_str(&mut res, m.as_str());
        }
        proof {
            assert(res@ =~= bind_text(self.view()));
        }
        res
    }
}

/// The lower-case hexadecimal digit for `d`.
pub open spec fn hex_lower_digit(d: int) -> char {
    if d < 10 {
        ((d + 48) as u8) as char
    } else {
        ((d - 10 + 97) as u8) as char
    }
}

/// `v` in exactly `n` lower-case hexadecimal digits, zero padded.
pub open spec fn hex_lower(v: nat, n: nat) -> Seq<char>
    decreases n,
{
    if n == 0 {
        Seq::empty()
    } else {
        hex_lower(v / 16, (n - 1) as nat).push(hex_lower_digit((v % 16) as int))
    }
}

/// The hyphenated form of the UUID with value `v` (most significant
/// digits first): 32 lower-case hexadecimal digits in groups of 8, 4, 4,
/// 4 and 12.
pub open spec fn uuid_text(v: u128) -> Seq<char> {
    let h = hex_lower(v as nat, 32);
    h.subrange(0, 8) + seq!['-'] + h.subrange(8, 12) + seq!['-'] + h.subrange(12, 16) + seq!['-']
        + h.subrange(16, 20) + seq!['-'] + h.subrange(20, 32)
}

/// The hyphenated text of the UUID with the given value
/// (`Uuid::from_u128`, `Display`), which the `uuid` documentation gives
/// as lower-case hexadecimal in groups of 8-4-4-4-12.
#[verifier::external_body]
pub(crate) fn uuid_to_string(v: u128) -> (r: String)
    ensures
        r@ == uuid_text(v),
{
    uuid::Uuid::from_u128(v).to_string()
}

/// The simple text of the UUID with the given value (`Uuid::as_simple`,
/// `Display`): its 32 lower-case hexadecimal digits, without hyphens.
#[verifier::external_body]
pub(crate) fn uuid_to_simple_string(v: u128) -> (r: String)
    ensures
        r@ == hex_lower(v as nat, 32),
{
    uuid::Uuid::from_u128(v).as_simple().to_string()
}

/// A fresh random UUID (`Uuid::new_v4`), as its value. The rest is
/// random; what is claimed is that it carries version 4 and the RFC 4122
/// variant (uuid's source sets the nibble at bits 76 to 79 to 4 and bits
/// 62 and 63 to `10`).
#[verifier::external_body]
pub(crate) fn new_uuid_v4() -> (r: u128)
    ensures
        r & 0xF000_C000_0000_0000_0000u128 == 0x4000_8000_0000_0000_0000u128,
{
    uuid::Uuid::new_v4().as_u128()
}

/// The settings of a `systemd-nspawn` invocation.
pub struct SpawnView {
    pub sudo: bool,
    pub quiet: bool,
    pub suppress_sync: bool,
    pub args: Seq<Seq<char>>,
    pub uuid: Option<u128>,
    pub settings: Option<Settings>,
    pub console: Option<ConsoleMode>,
    pub link_journal: Option<LinkJournal>,
    pub resolv_conf: Option<ResolvConf>,
    pub timezone: Option<Timezone>,
    pub directory: Option<Seq<char>>,
    pub root_overlay: Seq<Seq<char>>,
    pub overlay: Seq<Seq<Seq<char>>>,
    pub overlay_ro: Seq<Seq<Seq<char>>>,
    pub bind: Seq<BindMountView>,
    pub bind_ro: Seq<BindMountView>,
    pub environment: Seq<(Seq<char>, Seq<char>)>,
}

/// Collects the settings of a container and turns them into a
/// `systemd-nspawn` command line.
#[derive(Clone)]
pub struct SpawnBuilder {
    sudo: bool,
    quiet: bool,
    suppress_sync: bool,
    args: Vec<String>,
    uuid: Option<u128>,
    settings: Option<Settings>,
    console: Option<ConsoleMode>,
    link_journal: Option<LinkJournal>,
    resolv_conf: Option<ResolvConf>,
    timezone: Option<Timezone>,
    directory: Option<String>,
    root_overlay: Vec<String>,
    overlay: Vec<Vec<String>>,
    overlay_ro: Vec<Vec<String>>,
    bind: Vec<BindMount>,
    bind_ro: Vec<BindMount>,
    environment: EnvMap,
}

/// The views of the bind mounts.
pub open spec fn binds_view(v: Seq<BindMount>) -> Seq<BindMountView> {
    v.map_values(|b: BindMount| b.view())
}

/// The views of lists of paths.
pub open spec fn layers_view(v: Seq<Vec<String>>) -> Seq<Seq<Seq<char>>> {
    v.map_values(|l: Vec<String>| strings_view(l@))
}

/// The view of an optional string.
pub open spec fn opt_str(o: Option<String>) -> Option<Seq<char>> {
    match o {
        Some(s) => Some(s@),
        None => None,
    }
}

/// Every path with its colons escaped.
pub open spec fn escaped_all(s: Seq<Seq<char>>) -> Seq<Seq<char>> {
    s.map_values(|x: Seq<char>| spec_escape_colon(x))
}

/// `FLAG VALUE` when the option is set.
pub open spec fn opt_arg(flag: Seq<char>, value: Option<Seq<char>>) -> Seq<Seq<char>> {
    match value {
        Some(x) => seq![flag, x],
        None => Seq::empty(),
    }
}

/// One `FLAG L1:L2:...` pair per overlay, paths escaped.
pub open spec fn overlay_args(flag: Seq<char>, layers: Seq<Seq<Seq<char>>>) -> Seq<Seq<char>>
    decreases layers.len(),
{
    if layers.len() == 0 {
        Seq::empty()
    } else {
        overlay_args(flag, layers.drop_last()) + seq![
            flag,
            spec_join(escaped_all(layers.last()), ':'),
        ]
    }
}

/// One `FLAG MOUNT` pair per bind mount.
pub open spec fn bind_args(flag: Seq<char>, binds: Seq<BindMountView>) -> Seq<Seq<char>>
    decreases binds.len(),
{
    if binds.len() == 0 {
        Seq::empty()
    } else {
        bind_args(flag, binds.drop_last()) + seq![flag, bind_text(binds.last())]
    }
}

/// One `--setenv NAME=VALUE` pair per variable, in order.
pub open spec fn env_args(env: Seq<(Seq<char>, Seq<char>)>) -> Seq<Seq<char>>
    decreases env.len(),
{
    if env.len() == 0 {
        Seq::empty()
    } else {
        env_args(env.drop_last()) + seq![
            "--setenv"@,
            env.last().0 + seq!['='] + env.last().1,
        ]
    }
}

/// The first part of the command line: the program and the flags.
pub open spec fn head_args(v: SpawnView) -> Seq<Seq<char>> {
    (if v.sudo {
        seq!["sudo"@]
    } else {
        Seq::empty()
    }) + seq!["systemd-nspawn"@] + (if v.quiet {
        seq!["-q"@]
    } else {
        Seq::empty()
    }) + (if v.suppress_sync {
        seq!["--suppress-sync=true"@]
    } else {
        Seq::empty()
    })
}

/// The console option value, when set.
pub open spec fn console_opt(m: Option<ConsoleMode>) -> Option<Seq<char>> {
    match m {
        Some(x) => Some(console_name(x)),
        None => None,
    }
}

/// The settings option value, when set.
pub open spec fn settings_opt(m: Option<Settings>) -> Option<Seq<char>> {
    match m {
        Some(x) => Some(settings_name(x)),
        None => None,
    }
}

/// The journal option value, when set.
pub open spec fn link_journal_opt(m: Option<LinkJournal>) -> Option<Seq<char>> {
    match m {
        Some(x) => Some(link_journal_name(x)),
        None => None,
    }
}

/// The resolv.conf option value, when set.
pub open spec fn resolv_conf_opt(m: Option<ResolvConf>) -> Option<Seq<char>> {
    match m {
        Some(x) => Some(resolv_conf_name(x)),
        None => None,
    }
}

/// The timezone option value, when set.
pub open spec fn timezone_opt(m: Option<Timezone>) -> Option<Seq<char>> {
    match m {
        Some(x) => Some(timezone_name(x)),
        None => None,
    }
}

/// The option settings: console, settings, journal, resolv.conf and
/// timezone, each when set.
pub open spec fn mode_args(v: SpawnView) -> Seq<Seq<char>> {
    opt_arg("--console"@, console_opt(v.console)) + opt_arg("--settings"@, settings_opt(v.settings))
        + opt_arg("--link-journal"@, link_journal_opt(v.link_journal)) + opt_arg(
        "--resolv-conf"@,
        resolv_conf_opt(v.resolv_conf),
    ) + opt_arg("--timezone"@, timezone_opt(v.timezone))
}

/// The file systems: the root overlay (ending in `/`), the other
/// overlays, and the bind mounts.
pub open spec fn mount_args(v: SpawnView) -> Seq<Seq<char>> {
    (if v.root_overlay.len() > 0 {
        seq!["--overlay"@, spec_join(escaped_all(v.root_overlay).push(seq!['/']), ':')]
    } else {
        Seq::empty()
    }) + overlay_args("--overlay"@, v.overlay) + overlay_args("--overlay-ro"@, v.overlay_ro)
        + bind_args("--bind"@, v.bind) + bind_args("--bind-ro"@, v.bind_ro)
}

/// The last part: machine name and uuid, directory, environment and the
/// command to run.
pub open spec fn tail_args(v: SpawnView, uuid: u128) -> Seq<Seq<char>> {
    seq!["--machine"@, "raptor-"@ + uuid_text(uuid), "--uuid"@, uuid_text(uuid)] + opt_arg(
        "-D"@,
        v.directory,
    ) + env_args(v.environment) + v.args
}

/// The whole `systemd-nspawn` command line for settings `v`, the machine
/// identified by `uuid`.
pub open spec fn spawn_args(v: SpawnView, uuid: u128) -> Seq<Seq<char>> {
    head_args(v) + mode_args(v) + mount_args(v) + tail_args(v, uuid)
}

/// Appends `s` to a list of strings.
fn push_arg(res: &mut Vec<String>, s: String)
    ensures
        strings_view(final(res)@) == strings_view(old(res)@).push(s@),
{
    res.push(s);
    proof {
        assert(strings_view(res@) =~= strings_view(old(res)@).push(s@));
    }
}

/// Appends a literal to a list of strings.
fn push_lit(res: &mut Vec<String>, s: &str)
    ensures
        strings_view(final(res)@) == strings_view(old(res)@).push(s@),
{
    push_arg(res, s.to_owned());
}

/// Every path escaped, then joined with `:`, with `/` added last when
/// `root` is set.
fn overlay_text(layers: &Vec<String>, root: bool) -> (r: String)
    ensures
        r@ == spec_join(
            if root {
                escaped_all(strings_view(layers@)).push(seq!['/'])
            } else {
                escaped_all(strings_view(layers@))
            },
            ':',
        ),
{
    let mut parts: Vec<String> = Vec::new();
    let mut i: usize = 0;
    while i < layers.len()
        invariant
            i <= layers@.len(),
            strings_view(parts@) == escaped_all(strings_view(layers@.take(i as int))),
        decreases layers@.len() - i,
    {
        let e = escape_colon(layers[i].as_str());
        push_arg(&mut parts, e);
        proof {
            assert(escaped_all(strings_view(layers@.take(i + 1))) =~= escaped_all(
                strings_view(layers@.take(i as int)),
            ).push(spec_escape_colon(layers@[i as int]@)));
        }
        i = i + 1;
    }
    proof {
        assert(layers@.take(layers@.len() as int) =~= layers@);
    }
    if root {
        proof {
            reveal_strlit("/");
        }
        push_lit(&mut parts, "/");
        assert("/"@ =~= seq!['/']);
    }
    join_with(&parts, ':')
}

impl SpawnBuilder {
    /// The settings collected so far.
    pub closed spec fn view(&self) -> SpawnView {
        SpawnView {
            sudo: self.sudo,
            quiet: self.quiet,
            suppress_sync: self.suppress_sync,
            args: strings_view(self.args@),
            uuid: self.uuid,
            settings: self.settings,
            console: self.console,
            link_journal: self.link_journal,
            resolv_conf: self.resolv_conf,
            timezone: self.timezone,
            directory: opt_str(self.directory),
            root_overlay: strings_view(self.root_overlay@),
            overlay: layers_view(self.overlay@),
            overlay_ro: layers_view(self.overlay_ro@),
            bind: binds_view(self.bind@),
            bind_ro: binds_view(self.bind_ro@),
            environment: self.environment.view(),
        }
    }

    /// No settings: no flags, no mounts, no environment, no command.
    pub fn new() -> (r: Self)
        ensures
            r.view() == SpawnBuilder::new_view(),
    {
        let r = SpawnBuilder {
            sudo: false,
            quiet: false,
            suppress_sync: false,
            args: Vec::new(),
            uuid: None,
            settings: None,
            console: None,
            link_journal: None,
            resolv_conf: None,
            timezone: None,
            directory: None,
            root_overlay: Vec::new(),
            overlay: Vec::new(),
            overlay_ro: Vec::new(),
            bind: Vec::new(),
            bind_ro: Vec::new(),
            environment: EnvMap::new(),
        };
        proof {
            assert(strings_view(r.args@) =~= Seq::<Seq<char>>::empty());
            assert(strings_view(r.root_overlay@) =~= Seq::<Seq<char>>::empty());
            assert(layers_view(r.overlay@) =~= Seq::<Seq<Seq<char>>>::empty());
            assert(layers_view(r.overlay_ro@) =~= Seq::<Seq<Seq<char>>>::empty());
            assert(binds_view(r.bind@) =~= Seq::<BindMountView>::empty());
            assert(binds_view(r.bind_ro@) =~= Seq::<BindMountView>::empty());
        }
        r
    }

    /// Adds one word to the command run in the container.
    pub fn arg(self, arg: &str) -> (r: Self)
        ensures
            r.view() == (SpawnView { args: self.view().args.push(arg@), ..self.view() }),
    {
        let mut s = self;
        push_lit(&mut s.args, arg);
        s
    }

    /// Adds words to the command run in the container.
    pub fn args(self, args: &[String]) -> (r: Self)
        ensures
            r.view() == (SpawnView {
                args: self.view().args + strings_view(args@),
                ..self.view()
            }),
    {
        let mut s = self;
        let ghost start = strings_view(s.args@);
        let mut i: usize = 0;
        while i < args.len()
            invariant
                i <= args@.len(),
                strings_view(s.args@) == start + strings_view(args@.take(i as int)),
                s.view() == (SpawnView { args: strings_view(s.args@), ..self.view() }),
            decreases args@.len() - i,
        {
            push_lit(&mut s.args, args[i].as_str());
            proof {
                assert(strings_view(args@.take(i + 1)) =~= strings_view(args@.take(i as int)).push(
                    args@[i as int]@,
                ));
            }
            i = i + 1;
        }
        proof {
            assert(args@.take(args@.len() as int) =~= args@);
        }
        s
    }

    /// Runs `systemd-nspawn` through `sudo`, or not.
    pub fn sudo(self, sudo: bool) -> (r: Self)
        ensures
            r.view() == (SpawnView { sudo, ..self.view() }),
    {
        SpawnBuilder { sudo, ..self }
    }

    /// Asks `systemd-nspawn` to be quiet, or not.
    pub fn quiet(self, quiet: bool) -> (r: Self)
        ensures
            r.view() == (SpawnView { quiet, ..self.view() }),
    {
        SpawnBuilder { quiet, ..self }
    }

    /// Suppresses `sync()` in the container, or not.
    pub fn suppress_sync(self, suppress_sync: bool) -> (r: Self)
        ensures
            r.view() == (SpawnView { suppress_sync, ..self.view() }),
    {
        SpawnBuilder { suppress_sync, ..self }
    }

    /// Names the machine with the UUID of the given value.
    pub fn uuid(self, uuid: u128) -> (r: Self)
        ensures
            r.view() == (SpawnView { uuid: Some(uuid), ..self.view() }),
    {
        SpawnBuilder { uuid: Some(uuid), ..self }
    }

    /// Sets the console mode.
    pub fn console(self, mode: ConsoleMode) -> (r: Self)
        ensures
            r.view() == (SpawnView { console: Some(mode), ..self.view() }),
    {
        SpawnBuilder { console: Some(mode), ..self }
    }

    /// Sets the settings-file mode.
    pub fn settings(self, settings: Settings) -> (r: Self)
        ensures
            r.view() == (SpawnView { settings: Some(settings), ..self.view() }),
    {
        SpawnBuilder { settings: Some(settings), ..self }
    }

    /// Sets how the journal is linked.
    pub fn link_journal(self, link_journal: LinkJournal) -> (r: Self)
        ensures
            r.view() == (SpawnView { link_journal: Some(link_journal), ..self.view() }),
    {
        SpawnBuilder { link_journal: Some(link_journal), ..self }
    }

    /// Sets how `/etc/resolv.conf` is provided.
    pub fn resolv_conf(self, resolv_conf: ResolvConf) -> (r: Self)
        ensures
            r.view() == (SpawnView { resolv_conf: Some(resolv_conf), ..self.view() }),
    {
        SpawnBuilder { resolv_conf: Some(resolv_conf), ..self }
    }

    /// Sets how the timezone is provided.
    pub fn timezone(self, timezone: Timezone) -> (r: Self)
        ensures
            r.view() == (SpawnView { timezone: Some(timezone), ..self.view() }),
    {
        SpawnBuilder { timezone: Some(timezone), ..self }
    }

    /// Sets environment variable `key` to `value` in the container.
    pub fn setenv(self, key: &str, value: &str) -> (r: Self)
        ensures
            r.view() == (SpawnView {
                environment: spec_insert(self.view().environment, key@, value@),
                ..self.view()
            }),
            sorted(r.view().environment),
    {
        let SpawnBuilder {
            sudo,
            quiet,
            suppress_sync,
            args,
            uuid,
            settings,
            console,
            link_journal,
            resolv_conf,
            timezone,
            directory,
            root_overlay,
            overlay,
            overlay_ro,
            bind,
            bind_ro,
            environment,
        } = self;
        let environment = environment.insert(key, value);
        SpawnBuilder {
            sudo,
            quiet,
            suppress_sync,
            args,
            uuid,
            settings,
            console,
            link_journal,
            resolv_conf,
            timezone,
            directory,
            root_overlay,
            overlay,
            overlay_ro,
            bind,
            bind_ro,
            environment,
        }
    }

    /// Adds a layer on top of the root overlay.
    pub fn root_overlay(self, overlay: &str) -> (r: Self)
        ensures
            r.view() == (SpawnView {
                root_overlay: self.view().root_overlay.push(overlay@),
                ..self.view()
            }),
    {
        let mut s = self;
        push_lit(&mut s.root_overlay, overlay);
        s
    }

    /// Adds layers, in order, on top of the root overlay.
    pub fn root_overlays(self, overlays: &[String]) -> (r: Self)
        ensures
            r.view() == (SpawnView {
                root_overlay: self.view().root_overlay + strings_view(overlays@),
                ..self.view()
            }),
    {
        let mut s = self;
        let ghost start = strings_view(s.root_overlay@);
        let mut i: usize = 0;
        while i < overlays.len()
            invariant
                i <= overlays@.len(),
                strings_view(s.root_overlay@) == start + strings_view(overlays@.take(i as int)),
                s.view() == (SpawnView {
                    root_overlay: strings_view(s.root_overlay@),
                    ..self.view()
                }),
            decreases overlays@.len() - i,
        {
            push_lit(&mut s.root_overlay, overlays[i].as_str());
            proof {
                assert(strings_view(overlays@.take(i + 1)) =~= strings_view(
                    overlays@.take(i as int),
                ).push(overlays@[i as int]@));
            }
            i = i + 1;
        }
        proof {
            assert(overlays@.take(overlays@.len() as int) =~= overlays@);
        }
        s
    }

    /// Adds a read-write bind mount.
    pub fn bind(self, mount: BindMount) -> (r: Self)
        ensures
            r.view() == (SpawnView { bind: self.view().bind.push(mount.view()), ..self.view() }),
    {
        let mut s = self;
        s.bind.push(mount);
        proof {
            assert(binds_view(s.bind@) =~= binds_view(self.bind@).push(mount.view()));
        }
        s
    }

    /// Adds a read-only bind mount.
    pub fn bind_ro(self, mount: BindMount) -> (r: Self)
        ensures
            r.view() == (SpawnView {
                bind_ro: self.view().bind_ro.push(mount.view()),
                ..self.view()
            }),
    {
        let mut s = self;
        s.bind_ro.push(mount);
        proof {
            assert(binds_view(s.bind_ro@) =~= binds_view(self.bind_ro@).push(mount.view()));
        }
        s
    }

    /// Sets the directory `systemd-nspawn` uses as the container root.
    pub fn directory(self, path: &str) -> (r: Self)
        ensures
            r.view() == (SpawnView { directory: Some(path@), ..self.view() }),
    {
        SpawnBuilder { directory: Some(path.to_owned()), ..self }
    }

    /// Adds a read-write overlay of the `source` layers onto `dest`.
    pub fn overlay(self, source: &[String], dest: &str) -> (r: Self)
        ensures
            r.view() == (SpawnView {
                overlay: self.view().overlay.push(strings_view(source@).push(dest@)),
                ..self.view()
            }),
    {
        let mut layers = clone_strings(source);
        push_lit(&mut layers, dest);
        let mut s = self;
        s.overlay.push(layers);
        proof {
            assert(layers_view(s.overlay@) =~= layers_view(self.overlay@).push(
                strings_view(source@).push(dest@),
            ));
        }
        s
    }

    /// Adds a read-only overlay of the `source` layers onto `dest`.
    pub fn overlay_ro(self, source: &[String], dest: &str) -> (r: Self)
        ensures
            r.view() == (SpawnView {
                overlay_ro: self.view().overlay_ro.push(strings_view(source@).push(dest@)),
                ..self.view()
            }),
    {
        let mut layers = clone_strings(source);
        push_lit(&mut layers, dest);
        let mut s = self;
        s.overlay_ro.push(layers);
        proof {
            assert(layers_view(s.overlay_ro@) =~= layers_view(self.overlay_ro@).push(
                strings_view(source@).push(dest@),
            ));
        }
        s
    }

    /// The read-write bind mounts, in order.
    pub fn bind_mounts(&self) -> (r: &Vec<BindMount>)
        ensures
            binds_view(r@) == self.view().bind,
    {
        &self.bind
    }

    /// The read-only bind mounts, in order.
    pub fn bind_ro_mounts(&self) -> (r: &Vec<BindMount>)
        ensures
            binds_view(r@) == self.view().bind_ro,
    {
        &self.bind_ro
    }

    /// The environment variables, in name order.
    pub fn environment(&self) -> (r: &Vec<(String, String)>)
        ensures
            entries_view(r@) == self.view().environment,
            sorted(self.view().environment),
    {
        self.environment.entries()
    }
}

/// The view of an optional string slice.
pub open spec fn opt_view(o: Option<&str>) -> Option<Seq<char>> {
    match o {
        Some(s) => Some(s@),
        None => None,
    }
}

/// The console option value, when set.
fn console_value(m: Option<ConsoleMode>) -> (r: Option<&'static str>)
    ensures
        opt_view(r) == console_opt(m),
{
    match m {
        Some(x) => Some(x.variant_name()),
        None => None,
    }
}

/// The settings option value, when set.
fn settings_value(m: Option<Settings>) -> (r: Option<&'static str>)
    ensures
        opt_view(r) == settings_opt(m),
{
    match m {
        Some(x) => Some(x.variant_name()),
        None => None,
    }
}

/// The journal option value, when set.
fn link_journal_value(m: Option<LinkJournal>) -> (r: Option<&'static str>)
    ensures
        opt_view(r) == link_journal_opt(m),
{
    match m {
        Some(x) => Some(x.variant_name()),
        None => None,
    }
}

/// The resolv.conf option value, when set.
fn resolv_conf_value(m: Option<ResolvConf>) -> (r: Option<&'static str>)
    ensures
        opt_view(r) == resolv_conf_opt(m),
{
    match m {
        Some(x) => Some(x.variant_name()),
        None => None,
    }
}

/// The timezone option value, when set.
fn timezone_value(m: Option<Timezone>) -> (r: Option<&'static str>)
    ensures
        opt_view(r) == timezone_opt(m),
{
    match m {
        Some(x) => Some(x.variant_name()),
        None => None,
    }
}

/// Appends `FLAG VALUE` when there is a value.
fn push_opt(res: &mut Vec<String>, flag: &str, value: Option<&str>)
    ensures
        strings_view(final(res)@) == strings_view(old(res)@) + opt_arg(flag@, opt_view(value)),
{
    let ghost start = strings_view(res@);
    if let Some(x) = value {
        push_lit(res, flag);
        push_lit(res, x);
    }
    proof {
        assert(strings_view(res@) =~= start + opt_arg(flag@, opt_view(value)));
    }
}

/// Appends one `FLAG L1:L2:...` pair per overlay.
fn push_overlays(res: &mut Vec<String>, flag: &str, layers: &Vec<Vec<String>>)
    ensures
        strings_view(final(res)@) == strings_view(old(res)@) + overlay_args(flag@, layers_view(layers@)),
{
    let ghost start = strings_view(res@);
    let mut i: usize = 0;
    while i < layers.len()
        invariant
            i <= layers@.len(),
            strings_view(res@) == start + overlay_args(flag@, layers_view(layers@.take(i as int))),
        decreases layers@.len() - i,
    {
        push_lit(res, flag);
        let t = overlay_text(&layers[i], false);
        push_arg(res, t);
        proof {
            let a = layers_view(layers@.take(i + 1));
            assert(a.drop_last() =~= layers_view(layers@.take(i as int)));
            assert(a.last() == strings_view(layers@[i as int]@));
        }
        i = i + 1;
    }
    proof {
        assert(layers@.take(layers@.len() as int) =~= layers@);
    }
}

/// Appends one `FLAG MOUNT` pair per bind mount.
fn push_binds(res: &mut Vec<String>, flag: &str, binds: &Vec<BindMount>)
    ensures
        strings_view(final(res)@) == strings_view(old(res)@) + bind_args(flag@, binds_view(binds@)),
{
    let ghost start = strings_view(res@);
    let mut i: usize = 0;
    while i < binds.len()
        invariant
            i <= binds@.len(),
            strings_view(res@) == start + bind_args(flag@, binds_view(binds@.take(i as int))),
        decreases binds@.len() - i,
    {
        push_lit(res, flag);
        let t = binds[i].to_string();
        push_arg(res, t);
        proof {
            let a = binds_view(binds@.take(i + 1));
            assert(a.drop_last() =~= binds_view(binds@.take(i as int)));
            assert(a.last() == binds@[i as int].view());
        }
        i = i + 1;
    }
    proof {
        assert(binds@.take(binds@.len() as int) =~= binds@);
    }
}

/// Appends one `--setenv NAME=VALUE` pair per variable.
fn push_env(res: &mut Vec<String>, env: &Vec<(String, String)>)
    ensures
        strings_view(final(res)@) == strings_view(old(res)@) + env_args(entries_view(env@)),
{
    let ghost start = strings_view(res@);
    let mut i: usize = 0;
    proof {
        reveal_strlit("--setenv");
    }
    while i < env.len()
        invariant
            i <= env@.len(),
            strings_view(res@) == start + env_args(entries_view(env@.take(i as int))),
        decreases env@.len() - i,
    {
        push_lit(res, "--setenv");
        let (k, v) = &env[i];
        let mut t = k.clone();
        push_char(&mut t, '=');
        push_str(&mut t, v.as_str());
        assert(t@ =~= k@ + seq!['='] + v@);
        let ghost before = strings_view(res@);
        push_arg(res, t);
        proof {
            let a = entries_view(env@.take(i + 1));
            assert(a.drop_last() =~= entries_view(env@.take(i as int)));
            assert(a.last() == (k@, v@));
            assert(env_args(a) == env_args(a.drop_last()) + seq![
                "--setenv"@,
                a.last().0 + seq!['='] + a.last().1,
            ]);
            assert(before == start + env_args(a.drop_last()) + seq!["--setenv"@]);
            assert(strings_view(res@) =~= start + env_args(a));
        }
        i = i + 1;
    }
    proof {
        assert(env@.take(env@.len() as int) =~= env@);
    }
}

impl SpawnBuilder {
    /// Appends the program and its flags.
    fn push_head(&self, res: &mut Vec<String>)
        ensures
            strings_view(final(res)@) == strings_view(old(res)@) + head_args(self.view()),
    {
        let ghost start = strings_view(res@);
        if self.sudo {
            push_lit(res, "sudo");
        }
        push_lit(res, "systemd-nspawn");
        if self.quiet {
            push_lit(res, "-q");
        }
        if self.suppress_sync {
            push_lit(res, "--suppress-sync=true");
        }
        proof {
            reveal_strlit("sudo");
            reveal_strlit("systemd-nspawn");
            reveal_strlit("-q");
            reveal_strlit("--suppress-sync=true");
            assert(strings_view(res@) =~= start + head_args(self.view()));
        }
    }

    /// Appends the option settings.
    fn push_modes(&self, res: &mut Vec<String>)
        ensures
            strings_view(final(res)@) == strings_view(old(res)@) + mode_args(self.view()),
    {
        let ghost start = strings_view(res@);
        proof {
            reveal_strlit("--console");
            reveal_strlit("--settings");
            reveal_strlit("--link-journal");
            reveal_strlit("--resolv-conf");
            reveal_strlit("--timezone");
        }
        push_opt(res, "--console", console_value(self.console));
        let ghost s1 = strings_view(res@);
        push_opt(res, "--settings", settings_value(self.settings));
        let ghost s2 = strings_view(res@);
        push_opt(res, "--link-journal", link_journal_value(self.link_journal));
        let ghost s3 = strings_view(res@);
        push_opt(res, "--resolv-conf", resolv_conf_value(self.resolv_conf));
        let ghost s4 = strings_view(res@);
        push_opt(res, "--timezone", timezone_value(self.timezone));
        proof {
            assert(strings_view(res@) =~= start + mode_args(self.view()));
        }
    }

    /// Appends the overlays and bind mounts.
    fn push_mounts(&self, res: &mut Vec<String>)
        ensures
            strings_view(final(res)@) == strings_view(old(res)@) + mount_args(self.view()),
    {
        let ghost start = strings_view(res@);
        if self.root_overlay.len() > 0 {
            push_lit(res, "--overlay");
            let t = overlay_text(&self.root_overlay, true);
            push_arg(res, t);
        }
        let ghost s1 = strings_view(res@);
        proof {
            reveal_strlit("--overlay");
            reveal_strlit("--overlay-ro");
            reveal_strlit("--bind");
            reveal_strlit("--bind-ro");
        }
        push_overlays(res, "--overlay", &self.overlay);
        push_overlays(res, "--overlay-ro", &self.overlay_ro);
        push_binds(res, "--bind", &self.bind);
        push_binds(res, "--bind-ro", &self.bind_ro);
        proof {
            let v = self.view();
            assert(s1 =~= start + (if v.root_overlay.len() > 0 {
                seq!["--overlay"@, spec_join(escaped_all(v.root_overlay).push(seq!['/']), ':')]
            } else {
                Seq::empty()
            }));
            assert(strings_view(res@) =~= start + mount_args(v));
        }
    }

    /// Appends the machine identity, directory, environment and command.
    fn push_tail(&self, res: &mut Vec<String>, uuid: u128)
        ensures
            strings_view(final(res)@) == strings_view(old(res)@) + tail_args(self.view(), uuid),
    {
        let ghost start = strings_view(res@);
        let text = uuid_to_string(uuid);
        push_lit(res, "--machine");
        let mut machine = String::new();
        push_str(&mut machine, "raptor-");
        push_str(&mut machine, text.as_str());
        push_arg(res, machine);
        push_lit(res, "--uuid");
        push_arg(res, text);
        let ghost s1 = strings_view(res@);
        if let Some(dir) = &self.directory {
            push_lit(res, "-D");
            push_lit(res, dir.as_str());
        }
        let ghost s2 = strings_view(res@);
        push_env(res, self.environment.entries());
        let ghost s3 = strings_view(res@);
        let mut i: usize = 0;
        while i < self.args.len()
            invariant
                i <= self.args@.len(),
                strings_view(res@) == s3 + strings_view(self.args@.take(i as int)),
            decreases self.args@.len() - i,
        {
            push_lit(res, self.args[i].as_str());
            proof {
                assert(strings_view(self.args@.take(i + 1)) =~= strings_view(
                    self.args@.take(i as int),
                ).push(self.args@[i as int]@));
            }
            i = i + 1;
        }
        proof {
            reveal_strlit("--machine");
            reveal_strlit("raptor-");
            reveal_strlit("--uuid");
            reveal_strlit("-D");
            assert(self.args@.take(self.args@.len() as int) =~= self.args@);
            let v = self.view();
            assert(s1 =~= start + seq![
                "--machine"@,
                "raptor-"@ + uuid_text(uuid),
                "--uuid"@,
                uuid_text(uuid),
            ]);
            assert(s2 =~= s1 + opt_arg("-D"@, v.directory));
            assert(strings_view(res@) =~= start + tail_args(v, uuid));
        }
    }

    /// The `systemd-nspawn` command line for these settings, naming the
    /// machine after the UUID with value `uuid`.
    pub fn build_with_uuid(&self, uuid: u128) -> (r: Vec<String>)
        ensures
            strings_view(r@) == spawn_args(self.view(), uuid),
    {
        let mut res: Vec<String> = Vec::new();
        proof {
            assert(strings_view(res@) =~= Seq::<Seq<char>>::empty());
        }
        self.push_head(&mut res);
        self.push_modes(&mut res);
        self.push_mounts(&mut res);
        self.push_tail(&mut res, uuid);
        proof {
            let v = self.view();
            assert(strings_view(res@) =~= spawn_args(v, uuid));
        }
        res
    }

    /// The `systemd-nspawn` command line for these settings. The machine
    /// is named after the UUID that was set, or a fresh random one.
    pub fn build(&self) -> (r: Vec<String>)
        ensures
            self.view().uuid matches Some(u) ==> strings_view(r@) == spawn_args(self.view(), u),
            self.view().uuid is None ==> exists|u: u128|
                u & 0xF000_C000_0000_0000_0000u128 == 0x4000_8000_0000_0000_0000u128
                    && strings_view(r@) == #[trigger] spawn_args(self.view(), u),
    {
        let uuid = match self.uuid {
            Some(u) => u,
            None => new_uuid_v4(),
        };
        self.build_with_uuid(uuid)
    }
}

/// The settings that every build sandbox starts from: quiet, no `sync()`,
/// no journal link, no resolv.conf, no timezone, no settings files, and a
/// read-only console.
pub fn sandbox_builder() -> (r: SpawnBuilder)
    ensures
        r.view() == (SpawnView {
            quiet: true,
            suppress_sync: true,
            link_journal: Some(LinkJournal::No),
            resolv_conf: Some(ResolvConf::Off),
            timezone: Some(Timezone::Off),
            settings: Some(Settings::False),
            console: Some(ConsoleMode::ReadOnly),
            ..SpawnBuilder::new_view()
        }),
{
    SpawnBuilder::new().quiet(true).suppress_sync(true).link_journal(LinkJournal::No).resolv_conf(
        ResolvConf::Off,
    ).timezone(Timezone::Off).settings(Settings::False).console(ConsoleMode::ReadOnly)
}

impl SpawnBuilder {
    /// The settings of a new builder.
    pub open spec fn new_view() -> SpawnView {
        SpawnView {
            sudo: false,
            quiet: false,
            suppress_sync: false,
            args: Seq::empty(),
            uuid: None,
            settings: None,
            console: None,
            link_journal: None,
            resolv_conf: None,
            timezone: None,
            directory: None,
            root_overlay: Seq::empty(),
            overlay: Seq::empty(),
            overlay_ro: Seq::empty(),
            bind: Seq::empty(),
            bind_ro: Seq::empty(),
            environment: Seq::empty(),
        }
    }
}

} // verus!
