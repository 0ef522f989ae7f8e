//! The command line: which command the arguments ask for, and the device
//! and password options that follow it.

use vstd::prelude::*;

verus! {

/// The text of each argument.
pub open spec fn arg_views(args: Seq<String>) -> Seq<Seq<char>> {
    args.map_values(|a: String| a@)
}

/// An optional string, as text.
pub open spec fn opt_view(o: Option<String>) -> Option<Seq<char>> {
    match o {
        Some(s) => Some(s@),
        None => None,
    }
}

/// The options from argument `i` on, given the device and password found so
/// far: `-d`/`--device` and `-p`/`--password` take the next argument as
/// their value (a later one replacing an earlier one), a flag without a
/// next argument and any other argument are skipped.
pub open spec fn parse_from(
    args: Seq<Seq<char>>,
    i: int,
    device: Seq<char>,
    password: Option<Seq<char>>,
) -> (Seq<char>, Option<Seq<char>>)
    decreases args.len() - i,
{
    if i < 0 || i >= args.len() {
        (device, password)
    } else if args[i] == "-d"@ || args[i] == "--device"@ {
        if i + 1 < args.len() {
            parse_from(args, i + 2, args[i + 1], password)
        } else {
            parse_from(args, i + 1, device, password)
        }
    } else if args[i] == "-p"@ || args[i] == "--password"@ {
        if i + 1 < args.len() {
            parse_from(args, i + 2, device, Some(args[i + 1]))
        } else {
            parse_from(args, i + 1, device, password)
        }
    } else {
        parse_from(args, i + 1, device, password)
    }
}

/// The device path and password given after the command (from the third
/// argument on); the device is empty and the password absent when not
/// given.
pub fn parse_args(args: &[String]) -> (r: (String, Option<String>))
    ensures
        (r.0@, opt_view(r.1)) == parse_from(arg_views(args@), 2, Seq::empty(), None),
{
    let d_short = "-d".to_owned();
    let d_long = "--device".to_owned();
    let p_short = "-p".to_owned();
    let p_long = "--password".to_owned();
    let ghost av = arg_views(args@);
    let mut device = String::new();
    let mut password: Option<String> = None;
    let mut i: usize = 2;
    while i < args.len()
        invariant
            av == arg_views(args@),
            av.len() == args@.len(),
            d_short@ == "-d"@,
            d_long@ == "--device"@,
            p_short@ == "-p"@,
            p_long@ == "--password"@,
            i >= 2,
            parse_from(av, i as int, device@, opt_view(password)) == parse_from(
                av,
                2,
                Seq::empty(),
                None,
            ),
        decreases args@.len() - i,
    {
        assert(av[i as int] == args@[i as int]@);
        if args[i] == d_short || args[i] == d_long {
            if i + 1 < args.len() {
                assert(av[i + 1] == args@[i + 1]@);
                device = args[i + 1].clone();
                i = i + 2;
            } else {
                i = i + 1;
            }
        } else if args[i] == p_short || args[i] == p_long {
            if i + 1 < args.len() {
                assert(av[i + 1] == args@[i + 1]@);
                password = Some(args[i + 1].clone());
                i = i + 2;
            } else {
                i = i + 1;
            }
        } else {
            i = i + 1;
        }
    }
    (device, password)
}

/// The scan from argument `k` on never reads the arguments before `k`.
proof fn lemma_parse_from_frame(
    args: Seq<Seq<char>>,
    i: int,
    x: Seq<char>,
    k: int,
    device: Seq<char>,
    password: Option<Seq<char>>,
)
    requires
        0 <= i < args.len(),
        i < k,
    ensures
        parse_from(args.update(i, x), k, device, password) == parse_from(args, k, device, password),
    decreases args.len() - k,
{
    let a2 = args.update(i, x);
    if k < args.len() {
        assert(a2[k] == args[k]);
        lemma_parse_from_frame(args, i, x, k + 1, device, password);
        if k + 1 < args.len() {
            assert(a2[k + 1] == args[k + 1]);
            lemma_parse_from_frame(args, i, x, k + 2, args[k + 1], password);
            lemma_parse_from_frame(args, i, x, k + 2, device, Some(args[k + 1]));
        }
    }
}

/// The long option names mean the same as the short ones: where the scan
/// meets `--password` (or `--device`), writing `-p` (or `-d`) there instead
/// gives the same device and password.
pub proof fn lemma_long_flags_are_short_flags(
    args: Seq<Seq<char>>,
    i: int,
    device: Seq<char>,
    password: Option<Seq<char>>,
)
    requires
        0 <= i < args.len(),
    ensures
        args[i] == "--password"@ ==> parse_from(args, i, device, password) == parse_from(
            args.update(i, "-p"@),
            i,
            device,
            password,
        ),
        args[i] == "--device"@ ==> parse_from(args, i, device, password) == parse_from(
            args.update(i, "-d"@),
            i,
            device,
            password,
        ),
{
    reveal_strlit("-d");
    reveal_strlit("-p");
    reveal_strlit("--device");
    reveal_strlit("--password");
    assert("-d"@[1] != "-p"@[1]);
    assert("--device"@[2] != "--password"@[2]);
    if args[i] == "--password"@ {
        let a2 = args.update(i, "-p"@);
        assert(a2[i] == "-p"@);
        if i + 1 < args.len() {
            assert(a2[i + 1] == args[i + 1]);
            lemma_parse_from_frame(args, i, "-p"@, i + 2, device, Some(args[i + 1]));
        } else {
            lemma_parse_from_frame(args, i, "-p"@, i + 1, device, password);
        }
    }
    if args[i] == "--device"@ {
        let a2 = args.update(i, "-d"@);
        assert(a2[i] == "-d"@);
        if i + 1 < args.len() {
            assert(a2[i + 1] == args[i + 1]);
            lemma_parse_from_frame(args, i, "-d"@, i + 2, args[i + 1], password);
        } else {
            lemma_parse_from_frame(args, i, "-d"@, i + 1, device, password);
        }
    }
}

/// After the command, `-p v` or `--password v` gives the password `v`, and
/// `-d v` or `--device v` gives the device `v`.
pub proof fn lemma_single_option(args: Seq<Seq<char>>)
    requires
        args.len() == 4,
    ensures
        args[2] == "-p"@ || args[2] == "--password"@ ==> parse_from(args, 2, Seq::empty(), None) == (
        Seq::<char>::empty(), Some(args[3])),
        args[2] == "-d"@ || args[2] == "--device"@ ==> parse_from(args, 2, Seq::empty(), None) == (
        args[3], None::<Seq<char>>),
{
    reveal_strlit("-d");
    reveal_strlit("-p");
    reveal_strlit("--device");
    reveal_strlit("--password");
    assert("-d"@[1] != "-p"@[1]);
    assert("--device"@[2] != "--password"@[2]);
    assert(parse_from(args, 4, args[3], None) == (args[3], None::<Seq<char>>));
    assert(parse_from(args, 4, Seq::empty(), Some(args[3])) == (Seq::<char>::empty(), Some(args[3])));
}

/// What the command line asks for.
#[derive(Debug, Clone)]
pub enum CliCommand {
    /// No command: the interactive interface.
    Tui,
    /// Encrypt the device, with the password if given (else it is asked for).
    Encrypt { device: String, password: Option<String> },
    /// Decrypt the device, with the password if given (else it is asked for).
    Decrypt { device: String, password: Option<String> },
    /// Remove the vault header from the device.
    Wipe { device: String },
    /// Print the usage.
    Help,
    /// A device command without `--device`.
    MissingDevice,
    /// An unknown command.
    Unknown(String),
}

/// The command that the arguments ask for (the first argument is the
/// program's name).
pub fn plan_command(args: &[String]) -> (c: CliCommand)
    ensures
        args@.len() < 2 <==> c is Tui,
        args@.len() >= 2 ==> {
            let cmd = args@[1]@;
            let opts = parse_from(arg_views(args@), 2, Seq::empty(), None);
            &&& (cmd == "encrypt"@ || cmd == "decrypt"@ || cmd == "wipe"@) && opts.0.len() == 0
                <==> c is MissingDevice
            &&& cmd == "encrypt"@ && opts.0.len() != 0 <==> c is Encrypt
            &&& cmd == "decrypt"@ && opts.0.len() != 0 <==> c is Decrypt
            &&& cmd == "wipe"@ && opts.0.len() != 0 <==> c is Wipe
            &&& cmd == "help"@ || cmd == "-h"@ || cmd == "--help"@ <==> c is Help
            &&& c matches CliCommand::Encrypt { device, password } ==> device@ == opts.0
                && opt_view(password) == opts.1
            &&& c matches CliCommand::Decrypt { device, password } ==> device@ == opts.0
                && opt_view(password) == opts.1
            &&& c matches CliCommand::Wipe { device } ==> device@ == opts.0
            &&& c matches CliCommand::Unknown(s) ==> s@ == cmd
        },
{
    if args.len() < 2 {
        return CliCommand::Tui;
    }
    let cmd = &args[1];
    let encrypt = "encrypt".to_owned();
    let decrypt = "decrypt".to_owned();
    let wipe = "wipe".to_owned();
    let help = "help".to_owned();
    let h_short = "-h".to_owned();
    let h_long = "--help".to_owned();
    proof {
        reveal_strlit("encrypt");
        reveal_strlit("decrypt");
        reveal_strlit("wipe");
        reveal_strlit("help");
        reveal_strlit("-h");
        reveal_strlit("--help");
        assert("wipe"@[0] != "help"@[0]);
        assert("encrypt"@[0] != "decrypt"@[0]);
    }
    if *cmd == encrypt || *cmd == decrypt || *cmd == wipe {
        let (device, password) = parse_args(args);
        if device == String::new() {
            return CliCommand::MissingDevice;
        }
        proof {
            if device@.len() == 0 {
                assert(device@ =~= Seq::<char>::empty());
            }
        }
        if *cmd == encrypt {
            CliCommand::Encrypt { device, password }
        } else if *cmd == decrypt {
            CliCommand::Decrypt { device, password }
        } else {
            CliCommand::Wipe { device }
        }
    } else if *cmd == help || *cmd == h_short || *cmd == h_long {
        CliCommand::Help
    } else {
        CliCommand::Unknown(cmd.clone())
    }
}

} // verus!
