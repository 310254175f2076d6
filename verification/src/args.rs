//! The command lines of the daemon, of the test client and of the capture file
//! generator. Arguments are given without the name of the program.

use vstd::prelude::*;

use crate::numbers;
use crate::numbers::{parse_i64, parse_u32, parse_usize, IntErrorKind};
use crate::text;
use crate::text::{after_prefix, push_decimal, same};

verus! {

/// The arguments as texts.
pub open spec fn texts(args: Seq<String>) -> Seq<Seq<char>> {
    args.map_values(|s: String| s@)
}

/// What the daemon is asked to do.
#[derive(Debug)]
pub enum DaemonCommand {
    /// Serve what the configuration at the path says.
    Serve(String),
    /// Say how the daemon is called.
    Help,
    /// Nothing: the argument lacks its value.
    Missing(String),
    /// Nothing: the argument means nothing.
    Unknown(String),
}

/// What the daemon is asked to do, as texts.
pub enum DaemonCommandView {
    Serve(Seq<char>),
    Help,
    Missing(Seq<char>),
    Unknown(Seq<char>),
}

impl View for DaemonCommand {
    type V = DaemonCommandView;

    open spec fn view(&self) -> DaemonCommandView {
        match self {
            DaemonCommand::Serve(s) => DaemonCommandView::Serve(s@),
            DaemonCommand::Help => DaemonCommandView::Help,
            DaemonCommand::Missing(s) => DaemonCommandView::Missing(s@),
            DaemonCommand::Unknown(s) => DaemonCommandView::Unknown(s@),
        }
    }
}

/// The value of an argument that begins with `name`.
pub open spec fn value(arg: Seq<char>, name: Seq<char>) -> Option<Seq<char>> {
    if name.is_prefix_of(arg) {
        Some(arg.skip(name.len() as int))
    } else {
        None
    }
}

fn value_of(arg: &str, name: &str) -> (r: Option<String>)
    ensures
        match r {
            Some(v) => value(arg@, name@) == Some(v@),
            None => value(arg@, name@) is None,
        },
{
    let r = after_prefix(arg, name);
    if let Some(v) = &r {
        assert(arg@.skip(name@.len() as int) =~= v@);
        assert(name@.is_prefix_of(arg@)) by {
            assert(arg@.take(name@.len() as int) =~= name@);
        }
    }
    r
}

/// The value of an argument that begins with one of two names.
pub open spec fn either(arg: Seq<char>, long: Seq<char>, short: Seq<char>) -> Option<Seq<char>> {
    match value(arg, long) {
        Some(v) => Some(v),
        None => value(arg, short),
    }
}

/// What the daemon is asked to do by the arguments, when the configuration is the
/// one at `config` so far. The last one counts.
pub open spec fn daemon_command(args: Seq<Seq<char>>, config: Seq<char>) -> DaemonCommandView
    decreases args.len(),
{
    if args.len() == 0 {
        DaemonCommandView::Serve(config)
    } else {
        let arg = args[0];
        if arg == "--config"@ || arg == "-config"@ {
            if args.len() < 2 {
                DaemonCommandView::Missing(arg)
            } else {
                daemon_command(args.skip(2), args[1])
            }
        } else if either(arg, "--config="@, "-config="@) is Some {
            daemon_command(args.skip(1), either(arg, "--config="@, "-config="@)->0)
        } else if arg == "--syslog"@ || arg == "-syslog"@ || either(arg, "--syslog="@, "-syslog="@)
            is Some {
            daemon_command(args.skip(1), config)
        } else if arg == "--help"@ || arg == "-h"@ {
            DaemonCommandView::Help
        } else {
            DaemonCommandView::Unknown(arg)
        }
    }
}

/// A bare `-syslog` takes no value: what follows it is an argument of its own.
pub proof fn law_syslog_takes_no_value(rest: Seq<Seq<char>>, config: Seq<char>)
    ensures
        daemon_command(seq!["-syslog"@] + rest, config) == daemon_command(rest, config),
        daemon_command(seq!["--syslog"@] + rest, config) == daemon_command(rest, config),
{
    reveal_strlit("-syslog");
    reveal_strlit("--syslog");
    reveal_strlit("-config");
    reveal_strlit("--config");
    reveal_strlit("-config=");
    reveal_strlit("--config=");
    let (short, long) = ("-syslog"@, "--syslog"@);
    assert(short[1] == 's' && "-config"@[1] == 'c');
    assert(long[2] == 's' && "--config"@[2] == 'c');
    assert(long[1] == '-' && "-config="@[1] == 'c');
    assert((seq![short] + rest).skip(1) =~= rest);
    assert((seq![long] + rest).skip(1) =~= rest);
}

/// What the daemon is asked to do.
pub fn parse_daemon_args(args: &[String]) -> (r: DaemonCommand)
    ensures
        r@ == daemon_command(texts(args@), "/etc/testimony.conf"@),
{
    let mut config: String = "/etc/testimony.conf".to_owned();
    let ghost all = texts(args@);
    let mut i: usize = 0;
    assert(all.skip(0) =~= all);
    while i < args.len()
        invariant
            i <= args@.len(),
            all == texts(args@),
            daemon_command(all, "/etc/testimony.conf"@) == daemon_command(
                all.skip(i as int),
                config@,
            ),
        decreases args@.len() - i,
    {
        let arg: &str = args[i].as_str();
        let ghost rest = all.skip(i as int);
        assert(rest[0] == arg@);
        assert(rest.skip(1) =~= all.skip(i + 1));
        i = i + 1;
        if same(arg, "--config") || same(arg, "-config") {
            if i >= args.len() {
                return DaemonCommand::Missing(arg.to_owned());
            }
            assert(rest[1] == args@[i as int]@);
            assert(rest.skip(2) =~= all.skip(i + 1));
            config = args[i].clone();
            i = i + 1;
        } else if let Some(v) = value_of(arg, "--config=") {
            config = v;
        } else if let Some(v) = value_of(arg, "-config=") {
            config = v;
        } else if same(arg, "--syslog") || same(arg, "-syslog") {
        } else if value_of(arg, "--syslog=").is_some() || value_of(arg, "-syslog=").is_some() {
        } else if same(arg, "--help") || same(arg, "-h") {
            return DaemonCommand::Help;
        } else {
            return DaemonCommand::Unknown(arg.to_owned());
        }
    }
    assert(all.skip(i as int).len() == 0);
    DaemonCommand::Serve(config)
}

impl DaemonCommand {
    /// What to print where there is nothing to serve, and the status to exit with.
    pub fn refusal(&self) -> (r: Option<(String, i32)>)
        ensures
            match self@ {
                DaemonCommandView::Serve(_) => r is None,
                DaemonCommandView::Help => r matches Some((s, code)) && s@
                    == "Usage: testimonyd [--config /etc/testimony.conf]"@ && code == 0,
                DaemonCommandView::Missing(arg) => r matches Some((s, code)) && s@ == arg
                    + ": missing argument"@ && code == 2,
                DaemonCommandView::Unknown(arg) => r matches Some((s, code)) && s@
                    == "unknown argument: "@ + arg && code == 2,
            },
    {
        match self {
            DaemonCommand::Serve(_) => None,
            DaemonCommand::Help => Some(
                ("Usage: testimonyd [--config /etc/testimony.conf]".to_owned(), 0),
            ),
            DaemonCommand::Missing(arg) => {
                let mut s = arg.clone();
                s.append(": missing argument");
                Some((s, 2))
            },
            DaemonCommand::Unknown(arg) => {
                let mut s = "unknown argument: ".to_owned();
                s.append(arg.as_str());
                Some((s, 2))
            },
        }
    }
}

/// What the test client is asked to do.
#[derive(Debug)]
pub struct ClientArgs {
    /// The socket to connect to.
    pub socket: Option<String>,
    /// The capture socket to use.
    pub fanout: u32,
    /// How many packets to take; all that come where it is negative.
    pub count: i64,
    /// Whether to print packets.
    pub dump: bool,
    /// Whether to keep quiet about blocks.
    pub quiet: bool,
}

/// What the test client is asked to do, as texts.
pub struct ClientArgsView {
    pub socket: Option<Seq<char>>,
    pub fanout: u32,
    pub count: i64,
    pub dump: bool,
    pub quiet: bool,
}

impl View for ClientArgs {
    type V = ClientArgsView;

    open spec fn view(&self) -> ClientArgsView {
        ClientArgsView {
            socket: match self.socket {
                Some(s) => Some(s@),
                None => None,
            },
            fanout: self.fanout,
            count: self.count,
            dump: self.dump,
            quiet: self.quiet,
        }
    }
}

/// What comes of one argument: so many arguments are used up and the settings are
/// these; or help is asked for; or there is an error.
pub enum ArgOutcome<T> {
    Used { args: int, settings: T },
    Help,
    Bad(Seq<char>),
}

/// How the number of a setting is wrong.
pub open spec fn invalid(name: Seq<char>, e: IntErrorKind) -> Seq<char> {
    "invalid "@ + name + ": "@ + e.text()
}

/// The test client's settings with a fanout read from a text.
pub open spec fn with_fanout(
    s: ClientArgsView,
    name: Seq<char>,
    v: Seq<char>,
    args: int,
) -> ArgOutcome<ClientArgsView> {
    match numbers::read_integer(v, false, u32::MAX as int) {
        Ok(n) => ArgOutcome::Used {
            args,
            settings: ClientArgsView { fanout: n as u32, ..s },
        },
        Err(e) => ArgOutcome::Bad(invalid(name, e)),
    }
}

/// The test client's settings with a count read from a text.
pub open spec fn with_count(s: ClientArgsView, v: Seq<char>, args: int) -> ArgOutcome<
    ClientArgsView,
> {
    match numbers::read_integer(v, true, i64::MAX as int) {
        Ok(n) => ArgOutcome::Used { args, settings: ClientArgsView { count: n as i64, ..s } },
        Err(e) => ArgOutcome::Bad(invalid("--count"@, e)),
    }
}

/// What the first of the test client's arguments does to its settings.
pub open spec fn client_arg(args: Seq<Seq<char>>, s: ClientArgsView) -> ArgOutcome<
    ClientArgsView,
> {
    let arg = args[0];
    if arg == "--socket"@ {
        if args.len() < 2 {
            ArgOutcome::Bad("--socket needs an argument"@)
        } else {
            ArgOutcome::Used { args: 2, settings: ClientArgsView { socket: Some(args[1]), ..s } }
        }
    } else if arg == "--fanout"@ || arg == "--index"@ {
        if args.len() < 2 {
            ArgOutcome::Bad(arg + " needs an argument"@)
        } else {
            with_fanout(s, arg, args[1], 2)
        }
    } else if arg == "--count"@ {
        if args.len() < 2 {
            ArgOutcome::Bad("--count needs an argument"@)
        } else {
            with_count(s, args[1], 2)
        }
    } else if arg == "--dump"@ {
        ArgOutcome::Used { args: 1, settings: ClientArgsView { dump: true, ..s } }
    } else if arg == "--quiet"@ {
        ArgOutcome::Used { args: 1, settings: ClientArgsView { quiet: true, ..s } }
    } else if arg == "--help"@ || arg == "-h"@ {
        ArgOutcome::Help
    } else if value(arg, "--socket="@) is Some {
        ArgOutcome::Used {
            args: 1,
            settings: ClientArgsView { socket: value(arg, "--socket="@), ..s },
        }
    } else if value(arg, "--fanout="@) is Some {
        with_fanout(s, "--fanout"@, value(arg, "--fanout="@)->0, 1)
    } else if value(arg, "--index="@) is Some {
        with_fanout(s, "--index"@, value(arg, "--index="@)->0, 1)
    } else if value(arg, "--count="@) is Some {
        with_count(s, value(arg, "--count="@)->0, 1)
    } else {
        ArgOutcome::Bad("unknown arg: "@ + arg)
    }
}

/// What the test client's arguments do to its settings: the settings after all of
/// them, `None` where help is asked for, or the first error.
pub open spec fn client_args(args: Seq<Seq<char>>, s: ClientArgsView) -> Result<
    Option<ClientArgsView>,
    Seq<char>,
>
    decreases args.len(),
{
    if args.len() == 0 {
        if s.socket is Some {
            Ok(Some(s))
        } else {
            Err("--socket is required"@)
        }
    } else {
        match client_arg(args, s) {
            ArgOutcome::Used { args: n, settings } => if 0 < n <= args.len() {
                client_args(args.skip(n), settings)
            } else {
                Err(seq![])
            },
            ArgOutcome::Help => Ok(None),
            ArgOutcome::Bad(e) => Err(e),
        }
    }
}

/// The test client's settings before any argument.
pub open spec fn client_defaults() -> ClientArgsView {
    ClientArgsView { socket: None, fanout: 0, count: -1i64, dump: false, quiet: false }
}

fn invalid_text(name: &str, e: &IntErrorKind) -> (r: String)
    ensures
        r@ == invalid(name@, *e),
{
    let mut s = "invalid ".to_owned();
    s.append(name);
    s.append(": ");
    s.append(e.describe());
    s
}

/// Takes the first of `args[i..]`. The result is how many arguments are used up, or
/// nothing where help is asked for.
fn take_client_arg(s: &mut ClientArgs, args: &[String], i: usize) -> (r: Result<
    Option<usize>,
    String,
>)
    requires
        i < args@.len(),
    ensures
        match client_arg(texts(args@).skip(i as int), old(s)@) {
            ArgOutcome::Used { args: n, settings } => r matches Ok(Some(used)) && used == n && 0 < n
                && i + n <= args@.len() && final(s)@ == settings,
            ArgOutcome::Help => r matches Ok(None),
            ArgOutcome::Bad(e) => r matches Err(why) && why@ == e,
        },
{
    let ghost rest = texts(args@).skip(i as int);
    let arg: &str = args[i].as_str();
    assert(rest[0] == arg@);
    let more: bool = args.len() - i > 1;
    assert(more ==> rest[1] == args@[i + 1]@);
    if same(arg, "--socket") {
        if !more {
            return Err("--socket needs an argument".to_owned());
        }
        s.socket = Some(args[i + 1].clone());
        Ok(Some(2))
    } else if same(arg, "--fanout") || same(arg, "--index") {
        if !more {
            let mut e = arg.to_owned();
            e.append(" needs an argument");
            return Err(e);
        }
        match parse_u32(args[i + 1].as_str()) {
            Ok(n) => {
                s.fanout = n;
                Ok(Some(2))
            },
            Err(e) => Err(invalid_text(arg, &e)),
        }
    } else if same(arg, "--count") {
        if !more {
            return Err("--count needs an argument".to_owned());
        }
        match parse_i64(args[i + 1].as_str()) {
            Ok(n) => {
                s.count = n;
                Ok(Some(2))
            },
            Err(e) => Err(invalid_text("--count", &e)),
        }
    } else if same(arg, "--dump") {
        s.dump = true;
        Ok(Some(1))
    } else if same(arg, "--quiet") {
        s.quiet = true;
        Ok(Some(1))
    } else if same(arg, "--help") || same(arg, "-h") {
        Ok(None)
    } else if let Some(v) = value_of(arg, "--socket=") {
        s.socket = Some(v);
        Ok(Some(1))
    } else if let Some(v) = value_of(arg, "--fanout=") {
        match parse_u32(v.as_str()) {
            Ok(n) => {
                s.fanout = n;
                Ok(Some(1))
            },
            Err(e) => Err(invalid_text("--fanout", &e)),
        }
    } else if let Some(v) = value_of(arg, "--index=") {
        match parse_u32(v.as_str()) {
            Ok(n) => {
                s.fanout = n;
                Ok(Some(1))
            },
            Err(e) => Err(invalid_text("--index", &e)),
        }
    } else if let Some(v) = value_of(arg, "--count=") {
        match parse_i64(v.as_str()) {
            Ok(n) => {
                s.count = n;
                Ok(Some(1))
            },
            Err(e) => Err(invalid_text("--count", &e)),
        }
    } else {
        let mut e = "unknown arg: ".to_owned();
        e.append(arg);
        Err(e)
    }
}

/// What the test client is asked to do; nothing where help is asked for.
pub fn parse_client_args(args: &[String]) -> (r: Result<Option<ClientArgs>, String>)
    ensures
        match r {
            Ok(Some(s)) => client_args(texts(args@), client_defaults()) == Ok::<
                Option<ClientArgsView>,
                Seq<char>,
            >(Some(s@)),
            Ok(None) => client_args(texts(args@), client_defaults()) == Ok::<
                Option<ClientArgsView>,
                Seq<char>,
            >(None),
            Err(e) => client_args(texts(args@), client_defaults()) == Err::<
                Option<ClientArgsView>,
                Seq<char>,
            >(e@),
        },
{
    let mut s = ClientArgs { socket: None, fanout: 0, count: -1, dump: false, quiet: false };
    let ghost all = texts(args@);
    let ghost result = client_args(all, client_defaults());
    let mut i: usize = 0;
    assert(all.skip(0) =~= all);
    while i < args.len()
        invariant
            i <= args@.len(),
            all == texts(args@),
            result == client_args(all, client_defaults()),
            result == client_args(all.skip(i as int), s@),
        decreases args@.len() - i,
    {
        let used: usize = match take_client_arg(&mut s, args, i) {
            Ok(Some(used)) => used,
            Ok(None) => return Ok(None),
            Err(e) => return Err(e),
        };
        assert(all.skip(i as int).skip(used as int) =~= all.skip(i + used));
        i = i + used;
    }
    assert(all.skip(i as int).len() == 0);
    if s.socket.is_none() {
        return Err("--socket is required".to_owned());
    }
    Ok(Some(s))
}

/// What the capture file generator is asked to do.
#[derive(Debug)]
pub enum GenCommand {
    /// Write so many packets of so many bytes to the file.
    Make { count: usize, size: usize, out: String },
    /// Say how the generator is called, with the settings so far.
    Help { count: usize, size: usize },
}

/// The capture file generator's settings.
pub struct GenArgsView {
    pub count: usize,
    pub size: usize,
    pub out: Option<Seq<char>>,
}

struct GenArgs {
    count: usize,
    size: usize,
    out: Option<String>,
}

impl View for GenArgs {
    type V = GenArgsView;

    closed spec fn view(&self) -> GenArgsView {
        GenArgsView {
            count: self.count,
            size: self.size,
            out: match self.out {
                Some(s) => Some(s@),
                None => None,
            },
        }
    }
}

/// The least number of bytes in a packet of a capture file.
pub const MIN_PACKET: usize = 64;

/// The largest number of bytes in a packet of a capture file.
pub const MAX_PACKET: usize = 1500;

/// What the first of the generator's arguments does to its settings.
pub open spec fn gen_arg(args: Seq<Seq<char>>, s: GenArgsView) -> ArgOutcome<GenArgsView> {
    let arg = args[0];
    if arg == "--count"@ || arg == "--size"@ || arg == "--out"@ {
        if args.len() < 2 {
            ArgOutcome::Bad(arg + " needs a value"@)
        } else if arg == "--out"@ {
            ArgOutcome::Used { args: 2, settings: GenArgsView { out: Some(args[1]), ..s } }
        } else {
            match numbers::read_integer(args[1], false, usize::MAX as int) {
                Ok(n) => ArgOutcome::Used {
                    args: 2,
                    settings: if arg == "--count"@ {
                        GenArgsView { count: n as usize, ..s }
                    } else {
                        GenArgsView { size: n as usize, ..s }
                    },
                },
                Err(e) => ArgOutcome::Bad(invalid(arg, e)),
            }
        }
    } else if arg == "--help"@ || arg == "-h"@ {
        ArgOutcome::Help
    } else {
        ArgOutcome::Bad("unknown arg: "@ + arg)
    }
}

/// What the generator's arguments do to its settings: the settings after all of them
/// (`true`), or where help is asked for (`false`), or the first error. The size is
/// checked last.
pub open spec fn gen_args(args: Seq<Seq<char>>, s: GenArgsView) -> Result<
    (bool, GenArgsView),
    Seq<char>,
>
    decreases args.len(),
{
    if args.len() == 0 {
        if s.out is None {
            Err("--out is required"@)
        } else if MIN_PACKET <= s.size <= MAX_PACKET {
            Ok((true, s))
        } else {
            Err("--size must be in 64..=1500"@)
        }
    } else {
        match gen_arg(args, s) {
            ArgOutcome::Used { args: n, settings } => if 0 < n <= args.len() {
                gen_args(args.skip(n), settings)
            } else {
                Err(seq![])
            },
            ArgOutcome::Help => Ok((false, s)),
            ArgOutcome::Bad(e) => Err(e),
        }
    }
}

/// The generator's settings before any argument.
pub open spec fn gen_defaults() -> GenArgsView {
    GenArgsView { count: 100_000, size: 100, out: None }
}

fn take_gen_arg(s: &mut GenArgs, args: &[String], i: usize) -> (r: Result<bool, String>)
    requires
        i < args@.len(),
    ensures
        match gen_arg(texts(args@).skip(i as int), old(s)@) {
            ArgOutcome::Used { args: n, settings } => r matches Ok(true) && n == 2 && i + 2
                <= args@.len() && final(s)@ == settings,
            ArgOutcome::Help => r matches Ok(false) && final(s)@ == old(s)@,
            ArgOutcome::Bad(e) => r matches Err(why) && why@ == e,
        },
{
    let ghost rest = texts(args@).skip(i as int);
    let arg: &str = args[i].as_str();
    assert(rest[0] == arg@);
    if same(arg, "--help") || same(arg, "-h") {
        proof {
            reveal_strlit("--help");
            reveal_strlit("-h");
            reveal_strlit("--count");
            reveal_strlit("--size");
            reveal_strlit("--out");
            assert("--help"@[2] == 'h' && "--size"@[2] == 's');
        }
        return Ok(false);
    }
    let (count, size, out) = (same(arg, "--count"), same(arg, "--size"), same(arg, "--out"));
    if !count && !size && !out {
        let mut e = "unknown arg: ".to_owned();
        e.append(arg);
        return Err(e);
    }
    if args.len() - i < 2 {
        let mut e = arg.to_owned();
        e.append(" needs a value");
        return Err(e);
    }
    assert(rest[1] == args@[i + 1]@);
    if out {
        s.out = Some(args[i + 1].clone());
        return Ok(true);
    }
    match parse_usize(args[i + 1].as_str()) {
        Ok(n) => {
            if count {
                s.count = n;
            } else {
                s.size = n;
            }
            Ok(true)
        },
        Err(e) => Err(invalid_text(arg, &e)),
    }
}

/// What the capture file generator is asked to do.
pub fn parse_args(args: &[String]) -> (r: Result<GenCommand, String>)
    ensures
        match r {
            Ok(GenCommand::Make { count, size, out }) => gen_args(texts(args@), gen_defaults())
                == Ok::<(bool, GenArgsView), Seq<char>>(
                (true, GenArgsView { count, size, out: Some(out@) }),
            ),
            Ok(GenCommand::Help { count, size }) => gen_args(texts(args@), gen_defaults()) matches Ok(
                (false, s),
            ) && s.count == count && s.size == size,
            Err(e) => gen_args(texts(args@), gen_defaults()) == Err::<
                (bool, GenArgsView),
                Seq<char>,
            >(e@),
        },
{
    let mut s = GenArgs { count: 100_000, size: 100, out: None };
    let ghost all = texts(args@);
    let ghost result = gen_args(all, gen_defaults());
    let mut i: usize = 0;
    assert(all.skip(0) =~= all);
    while i < args.len()
        invariant
            i <= args@.len(),
            all == texts(args@),
            result == gen_args(all, gen_defaults()),
            result == gen_args(all.skip(i as int), s@),
        decreases args@.len() - i,
    {
        match take_gen_arg(&mut s, args, i) {
            Ok(true) => {},
            Ok(false) => return Ok(GenCommand::Help { count: s.count, size: s.size }),
            Err(e) => return Err(e),
        }
        assert(all.skip(i as int).skip(2) =~= all.skip(i + 2));
        i = i + 2;
    }
    assert(all.skip(i as int).len() == 0);
    match s.out {
        None => Err("--out is required".to_owned()),
        Some(out) => {
            if s.size < MIN_PACKET || s.size > MAX_PACKET {
                return Err("--size must be in 64..=1500".to_owned());
            }
            Ok(GenCommand::Make { count: s.count, size: s.size, out })
        },
    }
}

/// How the capture file generator is called, with the settings so far.
pub open spec fn gen_usage(count: usize, size: usize) -> Seq<char> {
    "Usage: gen_perf_pcap --count N --size BYTES --out PATH\n\nSynthesise a deterministic pcap for throughput testing.\n\nDefaults:\n  --count "@
        + text::decimal(count as nat) + " (number of packets)\n  --size  "@ + text::decimal(
        size as nat,
    ) + "  (bytes per frame, must be 64..=1500)"@
}

/// How the capture file generator is called, with the settings so far.
pub fn gen_help(count: usize, size: usize) -> (r: String)
    ensures
        r@ == gen_usage(count, size),
{
    let mut s =
        "Usage: gen_perf_pcap --count N --size BYTES --out PATH\n\nSynthesise a deterministic pcap for throughput testing.\n\nDefaults:\n  --count ".to_owned();
    push_decimal(&mut s, count as u128);
    s.append(" (number of packets)\n  --size  ");
    push_decimal(&mut s, size as u128);
    s.append("  (bytes per frame, must be 64..=1500)");
    s
}

/// The value of an argument is what follows its name, all of it; an argument that does not
/// begin with the name has none.
pub proof fn law_values_follow_names(name: Seq<char>, v: Seq<char>, arg: Seq<char>)
    ensures
        value(name + v, name) == Some(v),
        value(arg, name) matches Some(w) ==> arg == name + w,
{
    assert((name + v).skip(name.len() as int) =~= v);
    assert((name + v).take(name.len() as int) =~= name);
    if let Some(w) = value(arg, name) {
        assert(arg =~= name + w);
    }
}

/// How the daemon is told where its configuration is: with one dash or two, in an argument
/// of its own or behind an equals sign; the last one counts, and without any the one it
/// had. An argument that lacks its value is an error.
pub proof fn law_config_argument(path: Seq<char>, rest: Seq<Seq<char>>, config: Seq<char>)
    ensures
        daemon_command(Seq::<Seq<char>>::empty(), config) == DaemonCommandView::Serve(config),
        daemon_command(seq!["--config"@, path] + rest, config) == daemon_command(rest, path),
        daemon_command(seq!["-config"@, path] + rest, config) == daemon_command(rest, path),
        daemon_command(seq!["--config="@ + path] + rest, config) == daemon_command(rest, path),
        daemon_command(seq!["-config="@ + path] + rest, config) == daemon_command(rest, path),
        daemon_command(seq!["--config"@], config) == DaemonCommandView::Missing("--config"@),
        daemon_command(seq!["-config"@], config) == DaemonCommandView::Missing("-config"@),
{
    reveal_strlit("--config");
    reveal_strlit("-config");
    reveal_strlit("--config=");
    reveal_strlit("-config=");
    let (a, b) = (seq!["--config"@, path] + rest, seq!["-config"@, path] + rest);
    assert(a.skip(2) =~= rest);
    assert(b.skip(2) =~= rest);
    let (long, short) = ("--config="@ + path, "-config="@ + path);
    let (c, d) = (seq![long] + rest, seq![short] + rest);
    assert(c.skip(1) =~= rest);
    assert(d.skip(1) =~= rest);
    law_values_follow_names("--config="@, path, short);
    law_values_follow_names("-config="@, path, short);
    assert(long.len() > 8 && short.len() > 7);
    assert(short[1] == 'c' && "--config="@[1] == '-' && "--config"@[1] == '-');
    assert(long[1] == '-' && "-config"@[1] == 'c');
}

/// What the daemon is told about the system log changes nothing, to be told to help ends
/// it, and what it does not know is an error that names it.
pub proof fn law_other_daemon_arguments(
    v: Seq<char>,
    rest: Seq<Seq<char>>,
    config: Seq<char>,
    arg: Seq<char>,
)
    ensures
        daemon_command(seq!["--syslog="@ + v] + rest, config) == daemon_command(rest, config),
        daemon_command(seq!["-syslog="@ + v] + rest, config) == daemon_command(rest, config),
        daemon_command(seq!["--help"@] + rest, config) == DaemonCommandView::Help,
        daemon_command(seq!["-h"@] + rest, config) == DaemonCommandView::Help,
        arg != "--config"@ && arg != "-config"@ && arg != "--syslog"@ && arg != "-syslog"@ && arg
            != "--help"@ && arg != "-h"@ && !"--config="@.is_prefix_of(arg)
            && !"-config="@.is_prefix_of(arg) && !"--syslog="@.is_prefix_of(arg)
            && !"-syslog="@.is_prefix_of(arg) ==> daemon_command(seq![arg] + rest, config)
            == DaemonCommandView::Unknown(arg),
{
    reveal_strlit("--config");
    reveal_strlit("-config");
    reveal_strlit("--config=");
    reveal_strlit("-config=");
    reveal_strlit("--syslog");
    reveal_strlit("-syslog");
    reveal_strlit("--syslog=");
    reveal_strlit("-syslog=");
    reveal_strlit("--help");
    reveal_strlit("-h");
    let (long, short) = ("--syslog="@ + v, "-syslog="@ + v);
    law_values_follow_names("--syslog="@, v, long);
    law_values_follow_names("-syslog="@, v, short);
    assert(long[1] == '-' && long[2] == 's' && short[1] == 's');
    assert("--config"@[2] == 'c' && "-config"@[1] == 'c' && "--config="@[2] == 'c'
        && "-config="@[1] == 'c');
    assert((seq![long] + rest).skip(1) =~= rest);
    assert((seq![short] + rest).skip(1) =~= rest);
    assert("--help"@[1] == '-' && "--help"@[2] == 'h' && "-h"@[1] == 'h');
    assert("--syslog="@[2] == 's' && "-syslog="@[1] == 's');
    assert((seq![arg] + rest)[0] == arg);
    assert("--config"@[0] == '-' && "-config"@[0] == '-' && "--config="@[0] == '-'
        && "-config="@[0] == '-' && "--syslog"@[0] == '-' && "-syslog"@[0] == '-'
        && "--syslog="@[0] == '-' && "-syslog="@[0] == '-' && "--help"@[0] == '-' && "-h"@[0]
        == '-');
}

/// What each of the test client's arguments with a value does: the socket is the text that
/// follows, the fanout index and the count are the numbers that the text reads as, and
/// nothing else changes. Two arguments are used up.
pub proof fn law_client_arguments(s: ClientArgsView, v: Seq<char>, rest: Seq<Seq<char>>)
    ensures
        client_arg(seq!["--socket"@, v] + rest, s) == (ArgOutcome::Used {
            args: 2,
            settings: ClientArgsView { socket: Some(v), ..s },
        }),
        numbers::read_integer(v, false, 0xffff_ffff) matches Ok(n) ==> client_arg(
            seq!["--fanout"@, v] + rest,
            s,
        ) == (ArgOutcome::Used {
            args: 2,
            settings: ClientArgsView { fanout: n as u32, ..s },
        }) && client_arg(seq!["--index"@, v] + rest, s) == (ArgOutcome::Used {
            args: 2,
            settings: ClientArgsView { fanout: n as u32, ..s },
        }),
        numbers::read_integer(v, false, 0xffff_ffff) matches Err(e) ==> client_arg(
            seq!["--fanout"@, v] + rest,
            s,
        ) == ArgOutcome::<ClientArgsView>::Bad("invalid "@ + "--fanout"@ + ": "@ + e.text())
            && client_arg(seq!["--index"@, v] + rest, s) == ArgOutcome::<ClientArgsView>::Bad(
            "invalid "@ + "--index"@ + ": "@ + e.text(),
        ),
        numbers::read_integer(v, true, 0x7fff_ffff_ffff_ffff) matches Ok(n) ==> client_arg(
            seq!["--count"@, v] + rest,
            s,
        ) == (ArgOutcome::Used { args: 2, settings: ClientArgsView { count: n as i64, ..s } }),
        numbers::read_integer(v, true, 0x7fff_ffff_ffff_ffff) matches Err(e) ==> client_arg(
            seq!["--count"@, v] + rest,
            s,
        ) == ArgOutcome::<ClientArgsView>::Bad("invalid "@ + "--count"@ + ": "@ + e.text()),
{
    lemma_client_names();
    let a = seq!["--socket"@, v] + rest;
    let b = seq!["--fanout"@, v] + rest;
    let c = seq!["--index"@, v] + rest;
    let d = seq!["--count"@, v] + rest;
    assert(a[0] == "--socket"@ && a[1] == v);
    assert(b[0] == "--fanout"@ && b[1] == v);
    assert(c[0] == "--index"@ && c[1] == v);
    assert(d[0] == "--count"@ && d[1] == v);
}

/// The test client's arguments without a value of their own: two are switches, two ask for
/// help, and the others, alone at the end, lack their value.
pub proof fn law_client_switches(s: ClientArgsView, rest: Seq<Seq<char>>)
    ensures
        client_arg(seq!["--dump"@] + rest, s) == (ArgOutcome::Used {
            args: 1,
            settings: ClientArgsView { dump: true, ..s },
        }),
        client_arg(seq!["--quiet"@] + rest, s) == (ArgOutcome::Used {
            args: 1,
            settings: ClientArgsView { quiet: true, ..s },
        }),
        client_arg(seq!["--help"@] + rest, s) == ArgOutcome::<ClientArgsView>::Help,
        client_arg(seq!["-h"@] + rest, s) == ArgOutcome::<ClientArgsView>::Help,
        client_arg(seq!["--socket"@], s) == ArgOutcome::<ClientArgsView>::Bad(
            "--socket needs an argument"@,
        ),
        client_arg(seq!["--fanout"@], s) == ArgOutcome::<ClientArgsView>::Bad(
            "--fanout"@ + " needs an argument"@,
        ),
        client_arg(seq!["--index"@], s) == ArgOutcome::<ClientArgsView>::Bad(
            "--index"@ + " needs an argument"@,
        ),
        client_arg(seq!["--count"@], s) == ArgOutcome::<ClientArgsView>::Bad(
            "--count needs an argument"@,
        ),
{
    lemma_client_names();
    assert((seq!["--dump"@] + rest)[0] == "--dump"@);
    assert((seq!["--quiet"@] + rest)[0] == "--quiet"@);
    assert((seq!["--help"@] + rest)[0] == "--help"@);
    assert((seq!["-h"@] + rest)[0] == "-h"@);
}

/// A value behind an equals sign means what it means in an argument of its own, and one
/// argument is used up. What is no argument is an error that names it.
pub proof fn law_client_values_behind_equals(
    s: ClientArgsView,
    v: Seq<char>,
    rest: Seq<Seq<char>>,
    arg: Seq<char>,
)
    ensures
        client_arg(seq!["--socket="@ + v] + rest, s) == (ArgOutcome::Used {
            args: 1,
            settings: ClientArgsView { socket: Some(v), ..s },
        }),
        numbers::read_integer(v, false, 0xffff_ffff) matches Ok(n) ==> client_arg(
            seq!["--fanout="@ + v] + rest,
            s,
        ) == (ArgOutcome::Used {
            args: 1,
            settings: ClientArgsView { fanout: n as u32, ..s },
        }) && client_arg(seq!["--index="@ + v] + rest, s) == (ArgOutcome::Used {
            args: 1,
            settings: ClientArgsView { fanout: n as u32, ..s },
        }),
        numbers::read_integer(v, false, 0xffff_ffff) matches Err(e) ==> client_arg(
            seq!["--fanout="@ + v] + rest,
            s,
        ) == ArgOutcome::<ClientArgsView>::Bad("invalid "@ + "--fanout"@ + ": "@ + e.text())
            && client_arg(seq!["--index="@ + v] + rest, s) == ArgOutcome::<ClientArgsView>::Bad(
            "invalid "@ + "--index"@ + ": "@ + e.text(),
        ),
        numbers::read_integer(v, true, 0x7fff_ffff_ffff_ffff) matches Ok(n) ==> client_arg(
            seq!["--count="@ + v] + rest,
            s,
        ) == (ArgOutcome::Used { args: 1, settings: ClientArgsView { count: n as i64, ..s } }),
        numbers::read_integer(v, true, 0x7fff_ffff_ffff_ffff) matches Err(e) ==> client_arg(
            seq!["--count="@ + v] + rest,
            s,
        ) == ArgOutcome::<ClientArgsView>::Bad("invalid "@ + "--count"@ + ": "@ + e.text()),
        arg != "--socket"@ && arg != "--fanout"@ && arg != "--index"@ && arg != "--count"@ && arg
            != "--dump"@ && arg != "--quiet"@ && arg != "--help"@ && arg != "-h"@
            && !"--socket="@.is_prefix_of(arg) && !"--fanout="@.is_prefix_of(arg)
            && !"--index="@.is_prefix_of(arg) && !"--count="@.is_prefix_of(arg) ==> client_arg(
            seq![arg] + rest,
            s,
        ) == ArgOutcome::<ClientArgsView>::Bad("unknown arg: "@ + arg),
{
    lemma_client_names();
    reveal_strlit("--socket=");
    reveal_strlit("--fanout=");
    reveal_strlit("--index=");
    reveal_strlit("--count=");
    let a = "--socket="@ + v;
    let b = "--fanout="@ + v;
    let c = "--index="@ + v;
    let d = "--count="@ + v;
    law_values_follow_names("--socket="@, v, a);
    law_values_follow_names("--fanout="@, v, b);
    law_values_follow_names("--index="@, v, c);
    law_values_follow_names("--count="@, v, d);
    assert(a[2] == 's' && b[2] == 'f' && c[2] == 'i' && d[2] == 'c');
    assert("--socket="@[2] == 's' && "--fanout="@[2] == 'f' && "--index="@[2] == 'i');
    assert("--socket="@[0] == '-' && "--fanout="@[0] == '-' && "--index="@[0] == '-'
        && "--count="@[0] == '-');
    assert((seq![a] + rest)[0] == a);
    assert((seq![b] + rest)[0] == b);
    assert((seq![c] + rest)[0] == c);
    assert((seq![d] + rest)[0] == d);
    assert((seq![arg] + rest)[0] == arg);
}

/// The letters by which the test client's arguments differ.
proof fn lemma_client_names()
    ensures
        "--socket"@.len() == 8 && "--socket"@[0] == '-' && "--socket"@[2] == 's',
        "--fanout"@.len() == 8 && "--fanout"@[0] == '-' && "--fanout"@[2] == 'f',
        "--index"@.len() == 7 && "--index"@[0] == '-' && "--index"@[2] == 'i',
        "--count"@.len() == 7 && "--count"@[0] == '-' && "--count"@[2] == 'c',
        "--dump"@.len() == 6 && "--dump"@[0] == '-' && "--dump"@[2] == 'd',
        "--quiet"@.len() == 7 && "--quiet"@[0] == '-' && "--quiet"@[2] == 'q',
        "--help"@.len() == 6 && "--help"@[0] == '-' && "--help"@[2] == 'h',
        "-h"@.len() == 2 && "-h"@[0] == '-' && "-h"@[1] == 'h',
        "--socket"@[1] == '-' && "--fanout"@[1] == '-' && "--index"@[1] == '-' && "--count"@[1]
            == '-' && "--dump"@[1] == '-' && "--quiet"@[1] == '-' && "--help"@[1] == '-',
{
    reveal_strlit("--socket");
    reveal_strlit("--fanout");
    reveal_strlit("--index");
    reveal_strlit("--count");
    reveal_strlit("--dump");
    reveal_strlit("--quiet");
    reveal_strlit("--help");
    reveal_strlit("-h");
}

/// The test client's arguments are taken one after another, from the defaults on: no
/// socket, the first capture socket, no limit, and neither printing nor quiet. The first
/// that is wrong or asks for help decides; at the end there must be a socket.
pub proof fn law_client_arguments_in_order(args: Seq<Seq<char>>, s: ClientArgsView)
    ensures
        client_defaults().socket is None,
        client_defaults().fanout == 0,
        client_defaults().count == -1,
        !client_defaults().dump,
        !client_defaults().quiet,
        args.len() == 0 && s.socket is Some ==> client_args(args, s) == Ok::<
            Option<ClientArgsView>,
            Seq<char>,
        >(Some(s)),
        args.len() == 0 && s.socket is None ==> client_args(args, s) == Err::<
            Option<ClientArgsView>,
            Seq<char>,
        >("--socket is required"@),
        args.len() > 0 ==> match client_arg(args, s) {
            ArgOutcome::Used { args: n, settings } => 0 < n <= args.len() ==> client_args(args, s)
                == client_args(args.skip(n), settings),
            ArgOutcome::Help => client_args(args, s) == Ok::<Option<ClientArgsView>, Seq<char>>(
                None,
            ),
            ArgOutcome::Bad(e) => client_args(args, s) == Err::<
                Option<ClientArgsView>,
                Seq<char>,
            >(e),
        },
{
}

/// What each of the generator's arguments does, what it begins with, and what it insists
/// on: 100000 packets of 100 bytes to begin with, and in the end a file and packets of 64 to
/// 1500 bytes.
pub proof fn law_generator_arguments(s: GenArgsView, v: Seq<char>, rest: Seq<Seq<char>>)
    ensures
        gen_arg(seq!["--out"@, v] + rest, s) == (ArgOutcome::Used {
            args: 2,
            settings: GenArgsView { out: Some(v), ..s },
        }),
        numbers::read_integer(v, false, usize::MAX as int) matches Ok(n) ==> gen_arg(
            seq!["--count"@, v] + rest,
            s,
        ) == (ArgOutcome::Used { args: 2, settings: GenArgsView { count: n as usize, ..s } })
            && gen_arg(seq!["--size"@, v] + rest, s) == (ArgOutcome::Used {
            args: 2,
            settings: GenArgsView { size: n as usize, ..s },
        }),
        numbers::read_integer(v, false, usize::MAX as int) matches Err(e) ==> gen_arg(
            seq!["--count"@, v] + rest,
            s,
        ) == ArgOutcome::<GenArgsView>::Bad("invalid "@ + "--count"@ + ": "@ + e.text())
            && gen_arg(seq!["--size"@, v] + rest, s) == ArgOutcome::<GenArgsView>::Bad(
            "invalid "@ + "--size"@ + ": "@ + e.text(),
        ),
        gen_arg(seq!["--count"@], s) == ArgOutcome::<GenArgsView>::Bad(
            "--count"@ + " needs a value"@,
        ),
        gen_arg(seq!["--size"@], s) == ArgOutcome::<GenArgsView>::Bad(
            "--size"@ + " needs a value"@,
        ),
        gen_arg(seq!["--out"@], s) == ArgOutcome::<GenArgsView>::Bad("--out"@ + " needs a value"@),
        gen_arg(seq!["--help"@] + rest, s) == ArgOutcome::<GenArgsView>::Help,
        gen_arg(seq!["-h"@] + rest, s) == ArgOutcome::<GenArgsView>::Help,
        v != "--count"@ && v != "--size"@ && v != "--out"@ && v != "--help"@ && v != "-h"@
            ==> gen_arg(seq![v] + rest, s) == ArgOutcome::<GenArgsView>::Bad("unknown arg: "@ + v),
        gen_defaults().count == 100_000,
        gen_defaults().size == 100,
        gen_defaults().out is None,
        gen_args(Seq::<Seq<char>>::empty(), s) == (if s.out is None {
            Err::<(bool, GenArgsView), Seq<char>>("--out is required"@)
        } else if 64 <= s.size <= 1500 {
            Ok::<(bool, GenArgsView), Seq<char>>((true, s))
        } else {
            Err::<(bool, GenArgsView), Seq<char>>("--size must be in 64..=1500"@)
        }),
        rest.len() > 0 ==> match gen_arg(rest, s) {
            ArgOutcome::Used { args: n, settings } => 0 < n <= rest.len() ==> gen_args(rest, s)
                == gen_args(rest.skip(n), settings),
            ArgOutcome::Help => gen_args(rest, s) == Ok::<(bool, GenArgsView), Seq<char>>(
                (false, s),
            ),
            ArgOutcome::Bad(e) => gen_args(rest, s) == Err::<(bool, GenArgsView), Seq<char>>(e),
        },
{
    reveal_strlit("--count");
    reveal_strlit("--size");
    reveal_strlit("--out");
    reveal_strlit("--help");
    reveal_strlit("-h");
    assert("--count"@[2] == 'c' && "--size"@[2] == 's' && "--out"@[2] == 'o' && "--help"@[2]
        == 'h');
    assert("--count"@[0] == '-' && "--size"@[0] == '-' && "--out"@[0] == '-' && "--help"@[0] == '-'
        && "-h"@[0] == '-');
    assert((seq!["--out"@, v] + rest)[0] == "--out"@ && (seq!["--out"@, v] + rest)[1] == v);
    assert((seq!["--count"@, v] + rest)[0] == "--count"@ && (seq!["--count"@, v] + rest)[1] == v);
    assert((seq!["--size"@, v] + rest)[0] == "--size"@ && (seq!["--size"@, v] + rest)[1] == v);
    assert((seq!["--help"@] + rest)[0] == "--help"@);
    assert((seq!["-h"@] + rest)[0] == "-h"@);
    assert((seq![v] + rest)[0] == v);
}

/// How the generator is called: with the settings so far in the text.
pub proof fn law_what_the_generator_says(count: usize, size: usize)
    ensures
        gen_usage(count, size)
            == "Usage: gen_perf_pcap --count N --size BYTES --out PATH\n\nSynthesise a deterministic pcap for throughput testing.\n\nDefaults:\n  --count "@
            + text::decimal(count as nat) + " (number of packets)\n  --size  "@ + text::decimal(
            size as nat,
        ) + "  (bytes per frame, must be 64..=1500)"@,
{
}

/// Settings and commands are what their texts are: nothing is lost or mixed up between an
/// argument and its text, or between settings and what is said of them.
pub proof fn law_texts_of_arguments(args: Seq<String>, i: int, s: ClientArgs, c: DaemonCommand)
    ensures
        texts(args).len() == args.len(),
        0 <= i < args.len() ==> texts(args)[i] == args[i]@,
        s@.socket is Some <==> s.socket is Some,
        s.socket is Some ==> s@.socket->0 == s.socket->0@,
        s@.fanout == s.fanout,
        s@.count == s.count,
        s@.dump == s.dump,
        s@.quiet == s.quiet,
        c matches DaemonCommand::Serve(p) ==> c@ == DaemonCommandView::Serve(p@),
        c matches DaemonCommand::Missing(p) ==> c@ == DaemonCommandView::Missing(p@),
        c matches DaemonCommand::Unknown(p) ==> c@ == DaemonCommandView::Unknown(p@),
        c is Help ==> c@ == DaemonCommandView::Help,
{
}

} // verus!
