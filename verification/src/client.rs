//! The requests that Raptor sends to the `falcon` client inside a build
//! sandbox, and how they are framed on the wire.
use vstd::prelude::*;

use crate::dsl::Chown;
use crate::error::RaptorError;
use crate::text::{clone_strings, strings_view};

verus! {

/// A user or group: by number or by name.
#[derive(Debug)]
pub enum Account {
    Id(u32),
    Name(String),
}

/// A request to the sandbox.
#[derive(Debug)]
pub enum Request {
    Run { arg0: String, argv: Vec<String> },
    CreateFile { path: String, user: Option<Account>, group: Option<Account>, mode: Option<u16> },
    WriteFd { fd: i32, data: Vec<u8> },
    CloseFd { fd: i32 },
    Shutdown {},
}

/// The answer to a request: a failure with its message, or a success
/// with its value.
#[derive(Debug)]
pub enum Response {
    Failure(String),
    Success(i32),
}

/// The view of an optional account name.
pub open spec fn account_name(a: Option<Account>) -> Option<Seq<char>> {
    match a {
        Some(Account::Name(n)) => Some(n@),
        _ => None,
    }
}

/// The view of an optional string.
pub open spec fn opt_chars(o: Option<String>) -> Option<Seq<char>> {
    match o {
        Some(s) => Some(s@),
        None => None,
    }
}

/// An account named by an optional name.
fn named(n: &Option<String>) -> (r: Option<Account>)
    ensures
        account_name(r) == opt_chars(*n),
        r is Some <==> n is Some,
{
    match n {
        Some(name) => Some(Account::Name(name.clone())),
        None => None,
    }
}

/// The request that creates the file `path` in the sandbox, owned as
/// `owner` says (by name; nobody in particular when absent) and with
/// `mode`.
pub fn create_file_request(path: &str, owner: &Option<Chown>, mode: Option<u16>) -> (r: Request)
    ensures
        r matches Request::CreateFile { path: p, user, group, mode: m } && p@ == path@ && m == mode
            && match owner {
            Some(c) => account_name(user) == opt_chars(c.user) && (user is Some <==> c.user is Some)
                && account_name(group) == opt_chars(c.group) && (group is Some <==> c.group is Some),
            None => user is None && group is None,
        },
{
    let (user, group) = match owner {
        Some(c) => (named(&c.user), named(&c.group)),
        None => (None, None),
    };
    Request::CreateFile { path: path.to_owned(), user, group, mode }
}

/// The request that runs `cmd`: its first word as the program, all of it
/// as the arguments.
pub fn run_request(cmd: &[String]) -> (r: Request)
    requires
        cmd@.len() > 0,
    ensures
        r matches Request::Run { arg0, argv } && arg0@ == cmd@[0]@ && strings_view(argv@)
            == strings_view(cmd@),
{
    Request::Run { arg0: cmd[0].clone(), argv: clone_strings(cmd) }
}

/// A shell command line: `/bin/sh -c` and the words of `cmd`.
pub fn shell_command(cmd: &[String]) -> (r: Vec<String>)
    ensures
        strings_view(r@) == seq!["/bin/sh"@, "-c"@] + strings_view(cmd@),
{
    let mut res: Vec<String> = Vec::new();
    res.push("/bin/sh".to_owned());
    res.push("-c".to_owned());
    let ghost head = strings_view(res@);
    proof {
        assert(head =~= seq!["/bin/sh"@, "-c"@]);
    }
    let mut i: usize = 0;
    while i < cmd.len()
        invariant
            i <= cmd@.len(),
            head == seq!["/bin/sh"@, "-c"@],
            strings_view(res@) == head + strings_view(cmd@).take(i as int),
        decreases cmd@.len() - i,
    {
        let w = cmd[i].clone();
        let ghost before = strings_view(res@);
        res.push(w);
        proof {
            assert(strings_view(res@) =~= before.push(w@));
            assert(strings_view(cmd@).take(i + 1) =~= strings_view(cmd@).take(i as int).push(w@));
        }
        i = i + 1;
    }
    proof {
        assert(strings_view(cmd@).take(cmd@.len() as int) =~= strings_view(cmd@));
    }
    res
}

/// What a run request's exit code means: `0` is success, anything else
/// a failed run.
pub fn run_result(code: i32) -> (r: Result<(), RaptorError>)
    ensures
        code == 0 ==> r is Ok,
        code != 0 ==> r == Err::<(), RaptorError>(RaptorError::SandboxRunError(code)),
{
    if code == 0 {
        Ok(())
    } else {
        Err(RaptorError::SandboxRunError(code))
    }
}

/// The four bytes, most significant first, of the length of a frame
/// holding `n` bytes (a length of 4 GiB or more wraps around, as the
/// conversion to 32 bits does).
pub open spec fn frame_header(n: nat) -> Seq<u8> {
    let v = n % 0x1_0000_0000;
    seq![
        (v / 0x100_0000) as u8,
        ((v / 0x1_0000) % 0x100) as u8,
        ((v / 0x100) % 0x100) as u8,
        (v % 0x100) as u8,
    ]
}

/// A frame: the length of the payload in four bytes, most significant
/// first, then the payload.
pub fn frame(payload: &[u8]) -> (r: Vec<u8>)
    ensures
        r@ == frame_header(payload@.len()) + payload@,
{
    let n = payload.len() as u64 % 0x1_0000_0000u64;
    let mut res: Vec<u8> = Vec::new();
    res.push((n / 0x100_0000) as u8);
    res.push(((n / 0x1_0000) % 0x100) as u8);
    res.push(((n / 0x100) % 0x100) as u8);
    res.push((n % 0x100) as u8);
    proof {
        assert(res@ =~= frame_header(payload@.len()));
    }
    let ghost head = res@;
    let mut i: usize = 0;
    while i < payload.len()
        invariant
            i <= payload@.len(),
            res@ == head + payload@.take(i as int),
        decreases payload@.len() - i,
    {
        res.push(payload[i]);
        proof {
            assert(payload@.take(i + 1) =~= payload@.take(i as int).push(payload@[i as int]));
            assert(res@ =~= head + payload@.take(i + 1));
        }
        i = i + 1;
    }
    proof {
        assert(payload@.take(payload@.len() as int) =~= payload@);
    }
    res
}

/// The payload length that a frame header announces.
pub fn frame_length(header: [u8; 4]) -> (r: u32)
    ensures
        r == header[0] as int * 0x100_0000 + header[1] as int * 0x1_0000 + header[2] as int * 0x100
            + header[3] as int,
{
    let a = header[0] as u32;
    let b = header[1] as u32;
    let c = header[2] as u32;
    let d = header[3] as u32;
    a * 0x100_0000 + b * 0x1_0000 + c * 0x100 + d
}

/// Reading back a header that was written for `n` bytes gives `n`, as
/// long as `n` fits in 32 bits.
pub proof fn lemma_frame_roundtrip(n: nat)
    requires
        n < 0x1_0000_0000,
    ensures
        ({
            let h = frame_header(n);
            h[0] as int * 0x100_0000 + h[1] as int * 0x1_0000 + h[2] as int * 0x100 + h[3] as int
                == n
        }),
{
    let v = n % 0x1_0000_0000;
    assert(v == n);
    assert(v / 0x100_0000 < 0x100);
}

} // verus!
