//! The handle on the `adb` binary and the device a session targets.
//!
//! Running commands is left to the caller; this module holds what decides:
//! the choice of target, the arguments every command carries, and how a
//! command's outcome is read.

use vstd::prelude::*;

use crate::adb_error::{adb_view, AdbError, AdbErrorView};
use crate::model::{is_ascii_digit, owned_string, Device, DeviceView};
use crate::parse::{device_views, devices_of, opt_text, parse_devices, select_device, selection};
use crate::text::{
    chars_of, is_ws, split_at_char, split_chars, split_concat, split_plain, string_of, string_push_str,
    trim, trim_chars,
};

verus! {

/// Environment variable that overrides the path of the adb binary.
pub const ADB_ENV: &'static str = "SKRY_ADB";

#[verifier::external_type_specification]
#[verifier::external_body]
pub struct ExPathBuf(std::path::PathBuf);

/// `Clone::clone` on a path gives an equal path.
pub assume_specification[ <std::path::PathBuf as Clone>::clone ](p: &std::path::PathBuf) -> (r:
    std::path::PathBuf)
    ensures
        r == *p,
;

/// Handle on the adb binary.
#[derive(Debug, Clone)]
pub struct Adb {
    program: std::path::PathBuf,
}

/// A concrete device to operate on. Every command carries `-s <serial>`.
#[derive(Debug, Clone)]
pub struct Target {
    program: std::path::PathBuf,
    device: Device,
}

/// `run` may answer `out` when asked to run `program` with arguments whose
/// texts are `args`.
///
/// Running a command is the caller's part: `run(program, args)` starts
/// `program args...`, waits for it and reports its standard output, or the
/// failure (see [`command_outcome`] and [`launch_error`]).
pub open spec fn ran<F: Fn(std::path::PathBuf, Vec<String>) -> Result<String, AdbError>>(
    run: F,
    program: std::path::PathBuf,
    args: Seq<Seq<char>>,
    out: Result<String, AdbError>,
) -> bool {
    exists|a: Vec<String>| a.deep_view() == args && #[trigger] run.ensures((program, a), out)
}

/// The arguments of a command aimed at the device `serial`: `-s <serial>`,
/// then `tail`.
pub open spec fn on_device(serial: Seq<char>, tail: Seq<Seq<char>>) -> Seq<Seq<char>> {
    seq!["-s"@, serial] + tail
}

/// `devices -l`.
pub open spec fn devices_command() -> Seq<Seq<char>> {
    seq!["devices"@, "-l"@]
}

/// `push <local> <remote>`.
pub open spec fn push_command(local: Seq<char>, remote: Seq<char>) -> Seq<Seq<char>> {
    seq!["push"@, local, remote]
}

/// `forward <local> <remote>`.
pub open spec fn forward_command(local: Seq<char>, remote: Seq<char>) -> Seq<Seq<char>> {
    seq!["forward"@, local, remote]
}

/// `forward --remove <local>`.
pub open spec fn remove_forward_command(local: Seq<char>) -> Seq<Seq<char>> {
    seq!["forward"@, "--remove"@, local]
}

/// `shell <args...>`.
pub open spec fn shell_command(args: Seq<Seq<char>>) -> Seq<Seq<char>> {
    seq!["shell"@] + args
}

/// `shell CLASSPATH=<jar> app_process / <main_class> <server_args...>`: the
/// command that launches the server on the device.
pub open spec fn app_process_command(
    remote_jar: Seq<char>,
    main_class: Seq<char>,
    server_args: Seq<Seq<char>>,
) -> Seq<Seq<char>> {
    seq!["shell"@, "CLASSPATH="@ + remote_jar, "app_process"@, "/"@, main_class] + server_args
}

/// `shell pkill -f <main_class>`.
pub open spec fn pkill_command(main_class: Seq<char>) -> Seq<Seq<char>> {
    seq!["shell"@, "pkill"@, "-f"@, main_class]
}

/// The text of each argument, in order.
pub open spec fn arg_texts(args: Seq<&str>) -> Seq<Seq<char>> {
    args.map_values(|a: &str| a@)
}

/// Owned copies of the arguments.
fn owned_args(args: &[&str]) -> (r: Vec<String>)
    ensures
        r.deep_view() == arg_texts(args@),
{
    let mut r: Vec<String> = Vec::new();
    let mut i: usize = 0;
    while i < args.len()
        invariant
            i <= args@.len(),
            r.deep_view() == arg_texts(args@.take(i as int)),
        decreases args@.len() - i,
    {
        let ghost prev = r.deep_view();
        let a = owned_string(args[i]);
        let ghost av = a@;
        r.push(a);
        assert(r.deep_view() =~= prev.push(av));
        assert(arg_texts(args@.take(i + 1)) =~= arg_texts(args@.take(i as int)).push(
            args@[i as int]@,
        ));
        i = i + 1;
    }
    assert(args@.take(args@.len() as int) =~= args@);
    r
}

impl Adb {
    /// The path of the adb binary this handle runs.
    pub closed spec fn program_path(&self) -> std::path::PathBuf {
        self.program
    }

    /// A handle on the adb binary at `program`.
    pub fn from_program(program: std::path::PathBuf) -> (r: Adb)
        ensures
            r.program_path() == program,
    {
        Adb { program }
    }

    /// The path of the adb binary.
    pub fn program(&self) -> (r: &std::path::PathBuf)
        ensures
            *r == self.program_path(),
    {
        &self.program
    }

    /// Runs adb with the given arguments through `run`.
    fn run<F>(&self, run: &F, args: &[&str]) -> (r: Result<String, AdbError>) where
        F: Fn(std::path::PathBuf, Vec<String>) -> Result<String, AdbError>,

        requires
            forall|p: std::path::PathBuf, a: Vec<String>| run.requires((p, a)),
        ensures
            ran(*run, self.program_path(), arg_texts(args@), r),
    {
        let a = owned_args(args);
        let ghost ga = a;
        let r = run(self.program.clone(), a);
        assert(run.ensures((self.program_path(), ga), r));
        r
    }

    /// Lists the visible devices (`adb devices -l`).
    pub fn devices<F>(&self, run: &F) -> (r: Result<Vec<Device>, AdbError>) where
        F: Fn(std::path::PathBuf, Vec<String>) -> Result<String, AdbError>,

        requires
            forall|p: std::path::PathBuf, a: Vec<String>| run.requires((p, a)),
        ensures
            exists|out: Result<String, AdbError>|
                #[trigger] ran(*run, self.program_path(), devices_command(), out) && match out {
                    Ok(o) => r matches Ok(v) && v.deep_view() == devices_of(o@),
                    Err(e) => r == Err::<Vec<Device>, AdbError>(e),
                },
    {
        let out = self.run(run, &["devices", "-l"]);
        assert(arg_texts(seq!["devices", "-l"]) =~= devices_command());
        match out {
            Ok(o) => Ok(parse_devices(o.as_str())),
            Err(e) => Err(e),
        }
    }

    /// Resolves the target device, applying the selection's resilience to
    /// what `adb devices -l` lists.
    pub fn resolve_target<F>(&self, run: &F, desired_serial: Option<&str>) -> (r: Result<
        Target,
        AdbError,
    >) where F: Fn(std::path::PathBuf, Vec<String>) -> Result<String, AdbError>,

        requires
            forall|p: std::path::PathBuf, a: Vec<String>| run.requires((p, a)),
        ensures
            exists|out: Result<String, AdbError>|
                #[trigger] ran(*run, self.program_path(), devices_command(), out) && match out {
                    Ok(o) => match r {
                        Ok(t) => selection(devices_of(o@), opt_text(desired_serial)) == Ok::<
                            DeviceView,
                            AdbErrorView,
                        >(t@.device) && t.program_path() == self.program_path(),
                        Err(e) => selection(devices_of(o@), opt_text(desired_serial)) == Err::<
                            DeviceView,
                            AdbErrorView,
                        >(e@),
                    },
                    Err(e) => r is Err && r->Err_0 == e,
                },
    {
        let devices = self.devices(run);
        let ghost out = choose|out: Result<String, AdbError>|
            #[trigger] ran(*run, self.program_path(), devices_command(), out) && match out {
                Ok(o) => devices matches Ok(v) && v.deep_view() == devices_of(o@),
                Err(e) => devices == Err::<Vec<Device>, AdbError>(e),
            };
        match devices {
            Ok(v) => {
                assert(device_views(v@) =~= v.deep_view());
                let device = select_device(v.as_slice(), desired_serial);
                match device {
                    Ok(d) => {
                        let t = Target { program: self.program.clone(), device: d };
                        assert(ran(*run, self.program_path(), devices_command(), out));
                        Ok(t)
                    },
                    Err(e) => {
                        assert(ran(*run, self.program_path(), devices_command(), out));
                        Err(e)
                    },
                }
            },
            Err(e) => {
                assert(ran(*run, self.program_path(), devices_command(), out));
                Err(e)
            },
        }
    }
}

/// What a [`Target`] designates: its device.
pub struct TargetView {
    pub device: DeviceView,
}

impl View for Target {
    type V = TargetView;

    closed spec fn view(&self) -> TargetView {
        TargetView { device: self.device@ }
    }
}

impl Target {
    /// The path of the adb binary this target runs.
    pub closed spec fn program_path(&self) -> std::path::PathBuf {
        self.program
    }

    pub fn device(&self) -> (r: &Device)
        ensures
            r@ == self@.device,
    {
        &self.device
    }

    pub fn serial(&self) -> (r: &str)
        ensures
            r@ == self@.device.serial,
    {
        self.device.serial.as_str()
    }

    /// The path of the adb binary.
    pub fn program(&self) -> (r: &std::path::PathBuf)
        ensures
            *r == self.program_path(),
    {
        &self.program
    }

    /// The arguments of `adb -s <serial> <args>`, the full command that runs
    /// and that a failure reports.
    pub fn command_args(&self, args: &[&str]) -> (r: Vec<String>)
        ensures
            r.deep_view() == on_device(self@.device.serial, arg_texts(args@)),
    {
        let mut r: Vec<String> = Vec::new();
        r.push(owned_string("-s"));
        r.push(self.device.serial.clone());
        let mut tail = owned_args(args);
        let ghost head = r.deep_view();
        let ghost tv = tail.deep_view();
        r.append(&mut tail);
        assert(r.deep_view() =~= head + tv);
        assert(head =~= seq!["-s"@, self@.device.serial]);
        r
    }

    /// The arguments that launch the server through `app_process`:
    /// `-s <serial> shell CLASSPATH=<jar> app_process / <main_class> <args...>`.
    /// Starting the process is the caller's part; its standard input is not
    /// read by the server.
    pub fn app_process_args(&self, remote_jar: &str, main_class: &str, server_args: &[String]) -> (r:
        Vec<String>)
        ensures
            r.deep_view() == on_device(
                self@.device.serial,
                app_process_command(remote_jar@, main_class@, server_args@.map_values(|a: String| a@)),
            ),
    {
        let mut classpath = owned_string("CLASSPATH=");
        string_push_str(&mut classpath, remote_jar);
        let mut r = self.command_args(&["shell"]);
        assert(arg_texts(seq!["shell"]) =~= seq!["shell"@]);
        let ghost v0 = r.deep_view();
        let ghost cp = classpath@;
        r.push(classpath);
        assert(r.deep_view() =~= v0.push(cp));
        let ghost v1 = r.deep_view();
        r.push(owned_string("app_process"));
        assert(r.deep_view() =~= v1.push("app_process"@));
        let ghost v2 = r.deep_view();
        r.push(owned_string("/"));
        assert(r.deep_view() =~= v2.push("/"@));
        let ghost v3 = r.deep_view();
        r.push(owned_string(main_class));
        assert(r.deep_view() =~= v3.push(main_class@));
        let ghost head = r.deep_view();
        assert(head =~= on_device(
            self@.device.serial,
            seq!["shell"@, "CLASSPATH="@ + remote_jar@, "app_process"@, "/"@, main_class@],
        ));
        let mut i: usize = 0;
        while i < server_args.len()
            invariant
                i <= server_args@.len(),
                r.deep_view() == head + server_args@.take(i as int).map_values(|a: String| a@),
            decreases server_args@.len() - i,
        {
            let ghost prev = r.deep_view();
            let a = server_args[i].clone();
            r.push(a);
            assert(r.deep_view() =~= prev.push(server_args@[i as int]@));
            assert(server_args@.take(i + 1).map_values(|a: String| a@) =~= server_args@.take(
                i as int,
            ).map_values(|a: String| a@).push(server_args@[i as int]@));
            i = i + 1;
        }
        assert(server_args@.take(server_args@.len() as int) =~= server_args@);
        r
    }

    /// Runs `adb -s <serial> <args>` through `run`.
    fn run_args<F>(&self, run: &F, args: &[&str]) -> (r: Result<String, AdbError>) where
        F: Fn(std::path::PathBuf, Vec<String>) -> Result<String, AdbError>,

        requires
            forall|p: std::path::PathBuf, a: Vec<String>| run.requires((p, a)),
        ensures
            ran(*run, self.program_path(), on_device(self@.device.serial, arg_texts(args@)), r),
    {
        let a = self.command_args(args);
        let ghost ga = a;
        let r = run(self.program.clone(), a);
        assert(run.ensures((self.program_path(), ga), r));
        r
    }

    /// Pushes a local file to the device (`adb push`).
    pub fn push<F>(&self, run: &F, local: &str, remote: &str) -> (r: Result<(), AdbError>) where
        F: Fn(std::path::PathBuf, Vec<String>) -> Result<String, AdbError>,

        requires
            forall|p: std::path::PathBuf, a: Vec<String>| run.requires((p, a)),
        ensures
            exists|out: Result<String, AdbError>|
                #[trigger] ran(
                    *run,
                    self.program_path(),
                    on_device(self@.device.serial, push_command(local@, remote@)),
                    out,
                ) && match out {
                    Ok(_) => r is Ok,
                    Err(e) => r == Err::<(), AdbError>(e),
                },
    {
        let out = self.run_args(run, &["push", local, remote]);
        assert(arg_texts(seq!["push", local, remote]) =~= push_command(local@, remote@));
        match out {
            Ok(_) => Ok(()),
            Err(e) => Err(e),
        }
    }

    /// Creates a forward `tcp:<local_port>` to `<remote>` (for instance
    /// `localabstract:skry`) and gives back the effective local port (useful
    /// when `tcp:0` was asked for): the last non-blank line of the output.
    pub fn forward<F>(&self, run: &F, local: &str, remote: &str) -> (r: Result<String, AdbError>) where
        F: Fn(std::path::PathBuf, Vec<String>) -> Result<String, AdbError>,

        requires
            forall|p: std::path::PathBuf, a: Vec<String>| run.requires((p, a)),
        ensures
            exists|out: Result<String, AdbError>|
                #[trigger] ran(
                    *run,
                    self.program_path(),
                    on_device(self@.device.serial, forward_command(local@, remote@)),
                    out,
                ) && match out {
                    Ok(o) => r matches Ok(p) && p@ == last_nonblank(split_at_char(o@, '\n')),
                    Err(e) => r == Err::<String, AdbError>(e),
                },
    {
        let out = self.run_args(run, &["forward", local, remote]);
        assert(arg_texts(seq!["forward", local, remote]) =~= forward_command(local@, remote@));
        match out {
            Ok(o) => Ok(forward_port(o.as_str())),
            Err(e) => Err(e),
        }
    }

    /// Removes a forward created before.
    pub fn remove_forward<F>(&self, run: &F, local: &str) -> (r: Result<(), AdbError>) where
        F: Fn(std::path::PathBuf, Vec<String>) -> Result<String, AdbError>,

        requires
            forall|p: std::path::PathBuf, a: Vec<String>| run.requires((p, a)),
        ensures
            exists|out: Result<String, AdbError>|
                #[trigger] ran(
                    *run,
                    self.program_path(),
                    on_device(self@.device.serial, remove_forward_command(local@)),
                    out,
                ) && match out {
                    Ok(_) => r is Ok,
                    Err(e) => r == Err::<(), AdbError>(e),
                },
    {
        let out = self.run_args(run, &["forward", "--remove", local]);
        assert(arg_texts(seq!["forward", "--remove", local]) =~= remove_forward_command(local@));
        match out {
            Ok(_) => Ok(()),
            Err(e) => Err(e),
        }
    }

    /// Runs a command in the device's shell and gives back its output.
    pub fn shell<F>(&self, run: &F, args: &[&str]) -> (r: Result<String, AdbError>) where
        F: Fn(std::path::PathBuf, Vec<String>) -> Result<String, AdbError>,

        requires
            forall|p: std::path::PathBuf, a: Vec<String>| run.requires((p, a)),
        ensures
            ran(*run, self.program_path(), on_device(self@.device.serial, shell_command(arg_texts(args@))), r),
    {
        let mut full: Vec<&str> = Vec::new();
        full.push("shell");
        let mut i: usize = 0;
        while i < args.len()
            invariant
                i <= args@.len(),
                full@ == seq!["shell"] + args@.take(i as int),
            decreases args@.len() - i,
        {
            full.push(args[i]);
            assert(args@.take(i + 1) =~= args@.take(i as int).push(args@[i as int]));
            i = i + 1;
        }
        assert(args@.take(args@.len() as int) =~= args@);
        assert(arg_texts(full@) =~= shell_command(arg_texts(args@)));
        self.run_args(run, full.as_slice())
    }

    /// Stops, on the device, every `app_process` that runs the given class,
    /// so that the server is not left running and draining the battery
    /// (killing the local child is not enough). Idempotent: when no process
    /// matches it is no error.
    pub fn kill_server<F>(&self, run: &F, main_class: &str) -> (r: Result<(), AdbError>) where
        F: Fn(std::path::PathBuf, Vec<String>) -> Result<String, AdbError>,

        requires
            forall|p: std::path::PathBuf, a: Vec<String>| run.requires((p, a)),
        ensures
            exists|out: Result<String, AdbError>|
                #[trigger] ran(
                    *run,
                    self.program_path(),
                    on_device(self@.device.serial, pkill_command(main_class@)),
                    out,
                ) && r == pkill_value(out),
    {
        let out = self.run_args(run, &["shell", "pkill", "-f", main_class]);
        assert(arg_texts(seq!["shell", "pkill", "-f", main_class]) =~= pkill_command(main_class@));
        pkill_outcome(out)
    }
}

/// The last non-blank line of `lines`, trimmed (empty when there is none).
pub open spec fn last_nonblank(lines: Seq<Seq<char>>) -> Seq<char>
    decreases lines.len(),
{
    if lines.len() == 0 {
        seq![]
    } else if trim(lines.last()).len() > 0 {
        trim(lines.last())
    } else {
        last_nonblank(lines.drop_last())
    }
}

/// The local port that `adb forward` reports: the last non-blank line of its
/// output, trimmed. When the daemon starts during the command its notice
/// comes before the port, and taking the last line drops it.
pub fn forward_port(output: &str) -> (r: String)
    ensures
        r@ == last_nonblank(split_at_char(output@, '\n')),
{
    let text = chars_of(output);
    let lines = split_chars(text.as_slice(), '\n');
    let ghost ls = lines.deep_view();
    let mut i: usize = lines.len();
    assert(ls.take(i as int) =~= ls);
    while i > 0
        invariant
            i <= lines@.len(),
            ls == lines.deep_view(),
            ls == split_at_char(output@, '\n'),
            last_nonblank(ls) == last_nonblank(ls.take(i as int)),
        decreases i,
    {
        assert(ls.take(i as int).drop_last() =~= ls.take(i - 1));
        assert(ls.take(i as int).last() == lines[i - 1]@);
        let t = trim_chars(lines[i - 1].as_slice());
        if t.len() > 0 {
            return string_of(t.as_slice());
        }
        i = i - 1;
    }
    String::new()
}

/// The decimal value of a run of ASCII digits.
pub open spec fn decimal_value(d: Seq<char>) -> int
    decreases d.len(),
{
    if d.len() == 0 {
        0
    } else {
        decimal_value(d.drop_last()) * 10 + (d.last() as int - '0' as int)
    }
}

/// What follows an optional leading `+`.
pub open spec fn unsigned_digits(s: Seq<char>) -> Seq<char> {
    if s.len() > 0 && s[0] == '+' {
        s.drop_first()
    } else {
        s
    }
}

/// The port a text names, as `str::parse::<u16>` reads it: an optional `+`,
/// then one or more ASCII digits whose value fits in 16 bits.
pub open spec fn port_of(s: Seq<char>) -> Option<u16> {
    let d = unsigned_digits(s);
    if d.len() > 0 && (forall|i: int| 0 <= i < d.len() ==> is_ascii_digit(#[trigger] d[i]))
        && decimal_value(d) <= u16::MAX {
        Some(decimal_value(d) as u16)
    } else {
        None
    }
}

/// A longer run of digits is worth at least as much as its prefixes.
proof fn lemma_decimal_prefix(d: Seq<char>, j: int)
    requires
        0 <= j <= d.len(),
        forall|i: int| 0 <= i < d.len() ==> is_ascii_digit(#[trigger] d[i]),
    ensures
        0 <= decimal_value(d.take(j)) <= decimal_value(d),
    decreases d.len(),
{
    if d.len() > 0 {
        let p = d.drop_last();
        if j == d.len() {
            assert(d.take(j) =~= d);
            lemma_decimal_prefix(p, 0);
        } else {
            assert(d.take(j) =~= p.take(j));
            lemma_decimal_prefix(p, j);
        }
    } else {
        assert(d.take(j) =~= d);
    }
}

/// Reads the port that `adb forward` reported.
pub fn parse_port(text: &str) -> (r: Option<u16>)
    ensures
        r == port_of(text@),
{
    let cs = chars_of(text);
    let mut start: usize = 0;
    if cs.len() > 0 && cs[0] == '+' {
        start = 1;
    }
    let ghost d = unsigned_digits(text@);
    assert(d =~= cs@.skip(start as int));
    if start == cs.len() {
        return None;
    }
    let mut v: u32 = 0;
    let mut i: usize = start;
    while i < cs.len()
        invariant
            start <= i <= cs@.len(),
            cs@ == text@,
            d == unsigned_digits(text@),
            d == cs@.skip(start as int),
            d.len() > 0,
            forall|k: int| 0 <= k < i - start ==> is_ascii_digit(#[trigger] d[k]),
            v == decimal_value(d.take(i - start)),
            v <= u16::MAX,
        decreases cs@.len() - i,
    {
        let c = cs[i];
        assert(c == d[i - start]);
        if !('0' <= c && c <= '9') {
            assert(!is_ascii_digit(d[i - start]));
            assert(!(forall|k: int| 0 <= k < d.len() ==> is_ascii_digit(#[trigger] d[k])));
            return None;
        }
        assert(d.take(i - start + 1).drop_last() =~= d.take(i - start));
        let digit = (c as u32) - ('0' as u32);
        v = v * 10 + digit;
        if v > 65535 {
            proof {
                if forall|k: int| 0 <= k < d.len() ==> is_ascii_digit(#[trigger] d[k]) {
                    lemma_decimal_prefix(d, i - start + 1);
                    assert(decimal_value(d) > u16::MAX);
                }
            }
            return None;
        }
        i = i + 1;
    }
    assert(d.take(d.len() as int) =~= d);
    Some(v as u16)
}

/// What stopping the server amounts to, given how `pkill` ended: it exits
/// with 1 when no process matched, which counts as success.
pub open spec fn pkill_value(r: Result<String, AdbError>) -> Result<(), AdbError> {
    match r {
        Ok(_) => Ok(()),
        Err(AdbError::CommandFailed { code: Some(1), .. }) => Ok(()),
        Err(e) => Err(e),
    }
}

/// Reads how `pkill` ended: it exits with 1 when no process matched, which
/// counts as success, so stopping the server is idempotent.
pub fn pkill_outcome(r: Result<String, AdbError>) -> (res: Result<(), AdbError>)
    ensures
        res == pkill_value(r),
{
    match r {
        Ok(_) => Ok(()),
        Err(AdbError::CommandFailed { code: Some(1), .. }) => Ok(()),
        Err(e) => Err(e),
    }
}

/// Reads how a command ended: its standard output on success, else the
/// failure with the full command, the exit code and the standard error.
pub fn command_outcome(
    success: bool,
    code: Option<i32>,
    stdout: String,
    stderr: String,
    args: Vec<String>,
) -> (r: Result<String, AdbError>)
    ensures
        success ==> adb_view(r) == Ok::<Seq<char>, AdbErrorView>(stdout@),
        !success ==> adb_view(r) == Err::<Seq<char>, AdbErrorView>(
            AdbErrorView::CommandFailed { args: args.deep_view(), code, stderr: stderr@ },
        ),
{
    if success {
        Ok(stdout)
    } else {
        Err(AdbError::CommandFailed { args, code, stderr })
    }
}

/// Whether the kind of an I/O failure (`std::io::Error::kind`) is
/// `NotFound`. Nothing is stated of the answer: the kind is read from a value
/// that is opaque here.
#[verifier::external_body]
fn is_not_found(e: &std::io::Error) -> bool {
    e.kind() == std::io::ErrorKind::NotFound
}

/// The error of a command that could not be launched, given whether the
/// failure was a missing binary: that is [`AdbError::AdbNotFound`], any
/// other failure is kept as I/O.
pub fn launch_failure(not_found: bool, e: std::io::Error) -> (r: AdbError)
    ensures
        not_found ==> r is AdbNotFound,
        !not_found ==> r == AdbError::Io(e),
{
    if not_found {
        AdbError::AdbNotFound
    } else {
        AdbError::Io(e)
    }
}

/// The error of a command that could not be launched: a missing binary is
/// [`AdbError::AdbNotFound`], any other failure is kept as I/O.
pub fn launch_error(e: std::io::Error) -> (r: AdbError)
    ensures
        r is AdbNotFound || r == AdbError::Io(e),
{
    let not_found = is_not_found(&e);
    launch_failure(not_found, e)
}

/// A blank text trims to nothing.
proof fn lemma_trim_blank(b: Seq<char>)
    requires
        forall|k: int| 0 <= k < b.len() ==> is_ws(#[trigger] b[k]),
    ensures
        trim(b).len() == 0,
    decreases b.len(),
{
    if b.len() > 0 {
        assert(is_ws(b[0]));
        let r = b.drop_first();
        assert forall|k: int| 0 <= k < r.len() implies is_ws(#[trigger] r[k]) by {
            assert(r[k] == b[k + 1]);
        }
        lemma_trim_blank(r);
    }
}

/// The port `adb forward` reports is its last non-blank line, trimmed,
/// whatever comes before it (daemon notices); a blank line after it changes
/// nothing.
pub proof fn forward_port_is_last_line(before: Seq<char>, line: Seq<char>, blank: Seq<char>)
    requires
        !line.contains('\n'),
        !blank.contains('\n'),
        trim(line).len() > 0,
        forall|k: int| 0 <= k < blank.len() ==> is_ws(#[trigger] blank[k]),
    ensures
        last_nonblank(split_at_char(before + seq!['\n'] + line, '\n')) == trim(line),
        last_nonblank(split_at_char(before + seq!['\n'] + blank, '\n')) == last_nonblank(
            split_at_char(before, '\n'),
        ),
{
    split_concat(before, line, '\n');
    split_plain(line, '\n');
    let a = split_at_char(before + seq!['\n'] + line, '\n');
    assert(a.last() == line);
    split_concat(before, blank, '\n');
    split_plain(blank, '\n');
    let b = split_at_char(before + seq!['\n'] + blank, '\n');
    lemma_trim_blank(blank);
    assert(b.drop_last() =~= split_at_char(before, '\n'));
}

} // verus!
