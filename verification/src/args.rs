//! The command line.
use vstd::prelude::*;
use vstd::string::*;
use crate::text;

verus! {

/// What the program is asked to do.
#[derive(Debug)]
pub struct Args {
    /// The media file.
    pub input: String,
    /// Only encode the file.
    pub dry_run: bool,
    /// Send over WebTransport instead of WebRTC.
    pub webtransport: bool,
}

/// What a command line says.
#[verifier::ext_equal]
pub struct ArgsView {
    pub input: Seq<char>,
    pub dry_run: bool,
    pub webtransport: bool,
}

impl View for Args {
    type V = ArgsView;

    open spec fn view(&self) -> ArgsView {
        ArgsView {
            input: self.input@,
            dry_run: self.dry_run,
            webtransport: self.webtransport,
        }
    }
}

/// What a command line says, without the name of the program: a file, or one of the two
/// options and a file. What follows the file is not looked at.
pub open spec fn parsed(args: Seq<String>) -> Result<ArgsView, Seq<char>> {
    if args.len() == 0 {
        Err("usage: cargo run -- [--dry-run] <input-media-file>"@)
    } else if args[0]@ == "--dry-run"@ {
        if args.len() < 2 {
            Err("usage: cargo run -- --dry-run <input-media-file>"@)
        } else {
            Ok(ArgsView { input: args[1]@, dry_run: true, webtransport: false })
        }
    } else if args[0]@ == "--webtransport"@ {
        if args.len() < 2 {
            Err("usage: cargo run -- --webtransport <input-media-file>"@)
        } else {
            Ok(ArgsView { input: args[1]@, dry_run: false, webtransport: true })
        }
    } else {
        Ok(ArgsView { input: args[0]@, dry_run: false, webtransport: false })
    }
}

/// How a file is played.
#[derive(Debug, Clone, Copy, PartialEq, Eq, Structural)]
pub enum Mode {
    DryRun,
    WebTransport,
    WebRtc,
}

impl Args {
    /// Reads a command line, without the name of the program.
    pub fn parse(args: &Vec<String>) -> (r: Result<Args, &'static str>)
        ensures
            match r {
                Ok(a) => parsed(args@) == Ok::<ArgsView, Seq<char>>(a@),
                Err(usage) => parsed(args@) == Err::<ArgsView, Seq<char>>(usage@),
            },
            r matches Ok(a) ==> args@.len() > 0 && !(a.dry_run && a.webtransport) && a.input@ == (
            if a.dry_run || a.webtransport {
                args@[1]@
            } else {
                args@[0]@
            }),
    {
        if args.len() == 0 {
            return Err("usage: cargo run -- [--dry-run] <input-media-file>");
        }
        let first: &str = args[0].as_str();
        if text::same_text(first, "--dry-run") {
            if args.len() < 2 {
                return Err("usage: cargo run -- --dry-run <input-media-file>");
            }
            return Ok(Args { input: args[1].clone(), dry_run: true, webtransport: false });
        }
        if text::same_text(first, "--webtransport") {
            if args.len() < 2 {
                return Err("usage: cargo run -- --webtransport <input-media-file>");
            }
            return Ok(Args { input: args[1].clone(), dry_run: false, webtransport: true });
        }
        Ok(Args { input: args[0].clone(), dry_run: false, webtransport: false })
    }

    /// How the file is played: a dry run comes before everything else.
    pub fn mode(&self) -> (mode: Mode)
        ensures
            mode == (if self.dry_run {
                Mode::DryRun
            } else if self.webtransport {
                Mode::WebTransport
            } else {
                Mode::WebRtc
            }),
    {
        if self.dry_run {
            Mode::DryRun
        } else if self.webtransport {
            Mode::WebTransport
        } else {
            Mode::WebRtc
        }
    }
}

/// A command line that starts with anything but one of the two options names a file, whatever
/// it is called, and the file is played over WebRTC.
pub proof fn a_file_alone_is_played(args: Seq<String>)
    requires
        args.len() > 0,
        args[0]@ != "--dry-run"@,
        args[0]@ != "--webtransport"@,
    ensures
        parsed(args) matches Ok(a) && a.input == args[0]@ && !a.dry_run && !a.webtransport,
{
}

/// After an option comes the file, whatever it is called; without a file, the option is
/// refused. No command line at all is refused too.
pub proof fn an_option_takes_a_file(args: Seq<String>)
    ensures
        args.len() == 0 ==> parsed(args) is Err,
        args.len() == 1 && (args[0]@ == "--dry-run"@ || args[0]@ == "--webtransport"@)
            ==> parsed(args) is Err,
        args.len() >= 2 && args[0]@ == "--dry-run"@ ==> (parsed(args) matches Ok(a) && a.input
            == args[1]@ && a.dry_run && !a.webtransport),
        args.len() >= 2 && args[0]@ == "--webtransport"@ ==> (parsed(args) matches Ok(a)
            && a.input == args[1]@ && !a.dry_run && a.webtransport),
{
    reveal_strlit("--dry-run");
    reveal_strlit("--webtransport");
    assert("--dry-run"@.len() != "--webtransport"@.len());
}

/// What follows a command line that says what to do changes nothing.
pub proof fn further_words_are_not_looked_at(args: Seq<String>, more: Seq<String>)
    requires
        parsed(args) is Ok,
    ensures
        parsed(args + more) == parsed(args),
{
}

/// The view of a command line shows what it says.
pub proof fn args_are_shown(a: Args)
    ensures
        a@.input == a.input@,
        a@.dry_run == a.dry_run,
        a@.webtransport == a.webtransport,
{
}

/// What reading a command line gives: the file as it is named, and how it is played.
pub proof fn a_command_line_is_read(
    args: Vec<String>,
    r: Result<Args, &'static str>,
    a: Args,
    mode: Mode,
)
    requires
        call_ensures(Args::parse, (&args,), r),
        call_ensures(Args::mode, (&a,), mode),
        r is Ok ==> a == r->Ok_0,
    ensures
        ({
            let n = args@.len();
            let dry_run = n > 0 && args@[0]@ == "--dry-run"@;
            let webtransport = n > 0 && args@[0]@ == "--webtransport"@;
            &&& r is Err <==> n == 0 || (n == 1 && (dry_run || webtransport))
            &&& r is Ok && dry_run ==> a.input@ == args@[1]@ && mode == Mode::DryRun
            &&& r is Ok && webtransport ==> a.input@ == args@[1]@ && mode == Mode::WebTransport
            &&& r is Ok && !dry_run && !webtransport ==> a.input@ == args@[0]@ && mode
                == Mode::WebRtc
        }),
{
    an_option_takes_a_file(args@);
    reveal_strlit("--dry-run");
    reveal_strlit("--webtransport");
    assert("--dry-run"@.len() != "--webtransport"@.len());
}

/// A dry run comes before everything else.
pub proof fn a_mode_is_what_was_asked_for(a: Args, mode: Mode)
    requires
        call_ensures(Args::mode, (&a,), mode),
    ensures
        mode == Mode::DryRun <==> a.dry_run,
        mode == Mode::WebTransport <==> a.webtransport && !a.dry_run,
        mode == Mode::WebRtc <==> !a.webtransport && !a.dry_run,
{
}

} // verus!
