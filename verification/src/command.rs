//! Which debug bridge binary to run, with which arguments, and how to read
//! what it reported.

use crate::error::{message_of, AdbError, Failure};
use crate::text::{chars_of, string_of, trim, trimmed};
use vstd::prelude::*;

verus! {

/// The debug bridge binaries that are known: one that the user named, and
/// one that came with the application.
#[derive(Debug, Clone)]
pub struct AdbBinary {
    pub custom: Option<String>,
    pub bundled: Option<String>,
}

/// A command to run: the program and its arguments.
#[derive(Debug, Clone, PartialEq, Eq)]
pub struct Invocation {
    pub program: String,
    pub args: Vec<String>,
}

/// What a command reported when it ended.
#[derive(Debug, Clone)]
pub struct Output {
    /// Whether it ended with success.
    pub success: bool,
    /// What it wrote to its output stream.
    pub stdout: String,
    /// What it wrote to its error stream.
    pub stderr: String,
}

/// The text of an optional string.
pub open spec fn text_of(s: Option<String>) -> Option<Seq<char>> {
    match s {
        Some(s) => Some(s@),
        None => None,
    }
}

/// The texts of the strings in `v`, in order.
pub open spec fn strings(v: Seq<String>) -> Seq<Seq<char>> {
    Seq::new(v.len(), |i: int| v[i]@)
}

/// The texts of the string slices in `v`, in order.
pub open spec fn strs(v: Seq<&str>) -> Seq<Seq<char>> {
    Seq::new(v.len(), |i: int| v[i]@)
}

/// A path as it is kept: without white space around it, and not at all where
/// nothing else is left of it.
pub open spec fn normalized(path: Option<Seq<char>>) -> Option<Seq<char>> {
    match path {
        Some(p) => if trimmed(p).len() > 0 {
            Some(trimmed(p))
        } else {
            None
        },
        None => None,
    }
}

/// The binary to run: the one the user named, else the one that came with
/// the application.
pub open spec fn resolved(bin: AdbBinary) -> Option<Seq<char>> {
    match bin.custom {
        Some(p) => Some(p@),
        None => text_of(bin.bundled),
    }
}

/// What the outcome of starting a command amounts to. `None` stands for a
/// command that could not be started.
pub open spec fn outcome_of(output: Option<Output>) -> Result<Seq<char>, Failure> {
    match output {
        None => Err(Failure::NotFound),
        Some(o) => if o.success {
            Ok(o.stdout@)
        } else {
            Err(Failure::CommandFailed(trimmed(o.stderr@)))
        },
    }
}

/// The view of the result of a query.
pub open spec fn reply_of(r: Result<String, AdbError>) -> Result<Seq<char>, Failure> {
    match r {
        Ok(s) => Ok(s@),
        Err(e) => Err(e@),
    }
}

impl AdbBinary {
    /// No binary known.
    pub fn new() -> (bin: AdbBinary)
        ensures
            bin.custom is None,
            bin.bundled is None,
    {
        AdbBinary { custom: None, bundled: None }
    }
}

/// Trims a path, and drops it where it is empty then.
pub fn normalize_path(path: Option<String>) -> (r: Option<String>)
    ensures
        text_of(r) == normalized(text_of(path)),
{
    match path {
        Some(p) => {
            let t = trim(&chars_of(p.as_str()));
            if t.len() > 0 {
                Some(string_of(&t))
            } else {
                None
            }
        },
        None => None,
    }
}

/// Sets the binary that the user names, or clears it.
pub fn set_adb_path(bin: &mut AdbBinary, path: Option<String>)
    ensures
        text_of(final(bin).custom) == normalized(text_of(path)),
        final(bin).bundled == old(bin).bundled,
{
    bin.custom = normalize_path(path);
}

/// Sets the binary that came with the application. `present` says whether a
/// file exists at the normalised path; a path without a file is not kept.
pub fn set_bundled_adb_path(bin: &mut AdbBinary, path: Option<String>, present: bool)
    ensures
        text_of(final(bin).bundled) == (if present {
            normalized(text_of(path))
        } else {
            None
        }),
        final(bin).custom == old(bin).custom,
{
    if present {
        bin.bundled = normalize_path(path);
    } else {
        bin.bundled = None;
    }
}

/// The binary to run, where one is known.
pub fn resolve_adb_path(bin: &AdbBinary) -> (r: Result<String, AdbError>)
    ensures
        match r {
            Ok(p) => resolved(*bin) == Some(p@),
            Err(e) => resolved(*bin) is None && e == AdbError::NotFound,
        },
{
    match &bin.custom {
        Some(p) => Ok(p.clone()),
        None => match &bin.bundled {
            Some(p) => Ok(p.clone()),
            None => Err(AdbError::NotFound),
        },
    }
}

/// The binary to run, or `adb`, to be found on the search path, where none is known.
pub fn current_adb_path(bin: &AdbBinary) -> (r: String)
    ensures
        r@ == (match resolved(*bin) {
            Some(p) => p,
            None => "adb"@,
        }),
{
    match resolve_adb_path(bin) {
        Ok(p) => p,
        Err(_) => "adb".to_owned(),
    }
}

/// Copies `args` behind what `out` holds.
pub(crate) fn extend_with(out: &mut Vec<String>, args: &[&str])
    ensures
        strings(final(out)@) == strings(old(out)@) + strs(args@),
{
    let ghost before = strings(out@);
    let mut i: usize = 0;
    assert(strs(args@).take(0) =~= Seq::<Seq<char>>::empty());
    assert(before + Seq::<Seq<char>>::empty() =~= before);
    while i < args.len()
        invariant
            i <= args.len(),
            strings(out@) == before + strs(args@).take(i as int),
        decreases args.len() - i,
    {
        let ghost so_far = out@;
        out.push(args[i].to_owned());
        i += 1;
        assert(strings(out@) =~= strings(so_far) + seq![args@[i - 1]@]);
        assert(strs(args@).take(i as int) =~= strs(args@).take(i - 1) + seq![args@[i - 1]@]);
        assert(strings(out@) =~= before + strs(args@).take(i as int));
    }
    assert(strs(args@).take(args@.len() as int) =~= strs(args@));
}

/// The command that runs the debug bridge with `args`.
///
/// It fails, with `NotFound`, exactly where no binary is known.
pub fn run_host(bin: &AdbBinary, args: &[&str]) -> (r: Result<Invocation, AdbError>)
    ensures
        match r {
            Ok(inv) => resolved(*bin) == Some(inv.program@) && strings(inv.args@) == strs(args@),
            Err(e) => resolved(*bin) is None && e == AdbError::NotFound,
        },
{
    let mut full: Vec<String> = Vec::new();
    assert(strings(full@) =~= Seq::<Seq<char>>::empty());
    extend_with(&mut full, args);
    assert(Seq::<Seq<char>>::empty() + strs(args@) =~= strs(args@));
    match resolve_adb_path(bin) {
        Ok(program) => Ok(Invocation { program, args: full }),
        Err(e) => Err(e),
    }
}

/// The command that runs the debug bridge with `args` against the device
/// `device_id`: the arguments are `-s`, the device, and then `args`.
///
/// It fails, with `NotFound`, exactly where no binary is known.
pub fn run_device(bin: &AdbBinary, device_id: &str, args: &[&str]) -> (r: Result<
    Invocation,
    AdbError,
>)
    ensures
        match r {
            Ok(inv) => resolved(*bin) == Some(inv.program@) && strings(inv.args@) == seq![
                "-s"@,
                device_id@,
            ] + strs(args@),
            Err(e) => resolved(*bin) is None && e == AdbError::NotFound,
        },
{
    let mut full: Vec<String> = Vec::new();
    full.push("-s".to_owned());
    full.push(device_id.to_owned());
    assert(strings(full@) =~= seq!["-s"@, device_id@]);
    extend_with(&mut full, args);
    match resolve_adb_path(bin) {
        Ok(program) => Ok(Invocation { program, args: full }),
        Err(e) => Err(e),
    }
}

/// Reads what became of a command. `None` stands for a command that could
/// not be started, which counts as `NotFound`. A command that reported
/// failure gives `CommandFailed` with its trimmed error stream; one that
/// succeeded gives its output stream.
pub fn read_output(output: Option<Output>) -> (r: Result<String, AdbError>)
    ensures
        reply_of(r) == outcome_of(output),
{
    match output {
        None => Err(AdbError::NotFound),
        Some(o) => {
            if o.success {
                Ok(o.stdout)
            } else {
                Err(AdbError::CommandFailed(string_of(&trim(&chars_of(o.stderr.as_str())))))
            }
        },
    }
}

/// The command that starts the debug bridge server.
///
/// It fails exactly where no binary is known, with a `Client` error that
/// carries the message of `NotFound`.
pub fn try_ping_server(bin: &AdbBinary) -> (r: Result<Invocation, AdbError>)
    ensures
        match r {
            Ok(inv) => resolved(*bin) == Some(inv.program@) && strings(inv.args@) == seq![
                "start-server"@,
            ],
            Err(e) => resolved(*bin) is None && e@ == Failure::Client(
                message_of(Failure::NotFound),
            ),
        },
{
    let r = run_host(bin, &["start-server"]);
    match r {
        Ok(inv) => {
            assert(strs((["start-server"])@) =~= seq!["start-server"@]);
            Ok(inv)
        },
        Err(e) => Err(AdbError::Client(e.message())),
    }
}

/// What the reply to [`try_ping_server`] amounts to: success where the
/// command succeeded, else a `Client` error with the failure's message.
pub fn ping_reply(reply: Result<String, AdbError>) -> (r: Result<(), AdbError>)
    ensures
        match reply {
            Ok(_) => r is Ok,
            Err(e) => r is Err && r->Err_0@ == Failure::Client(message_of(e@)),
        },
{
    match reply {
        Ok(_) => Ok(()),
        Err(e) => Err(AdbError::Client(e.message())),
    }
}

} // verus!
