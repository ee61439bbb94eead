use vstd::prelude::*;
use vstd::string::StrSliceExecFns;

verus! {

/// The command-line options: a network role and the peer's address.
pub struct CommandLineArgs {
    pub is_server: bool,
    pub is_client: bool,
    pub remoteip: String,
}

/// The options as plain values.
pub struct ArgsView {
    pub is_server: bool,
    pub is_client: bool,
    pub remoteip: Seq<char>,
}

pub open spec fn no_options() -> ArgsView {
    ArgsView { is_server: false, is_client: false, remoteip: Seq::empty() }
}

/// The options that `args[i..]` add to `acc`: `--server` sets the server
/// role, `--client` sets the client role and takes the next argument as the
/// peer's address, anything else is skipped. `None` when `--client` is the
/// last argument.
pub open spec fn parse_from(args: Seq<Seq<char>>, i: int, acc: ArgsView) -> Option<ArgsView>
    decreases args.len() - i,
{
    if i < 0 || i >= args.len() {
        Some(acc)
    } else if args[i] == "--server"@ {
        parse_from(args, i + 1, ArgsView { is_server: true, ..acc })
    } else if args[i] == "--client"@ {
        if i + 1 < args.len() {
            parse_from(args, i + 2, ArgsView { is_client: true, remoteip: args[i + 1], ..acc })
        } else {
            None
        }
    } else {
        parse_from(args, i + 1, acc)
    }
}

pub open spec fn texts(args: Seq<String>) -> Seq<Seq<char>> {
    args.map_values(|s: String| s@)
}

impl CommandLineArgs {
    pub fn new() -> (r: CommandLineArgs)
        ensures
            !r.is_server,
            !r.is_client,
            r.remoteip@ == Seq::<char>::empty(),
    {
        CommandLineArgs { is_server: false, is_client: false, remoteip: String::new() }
    }

    pub open spec fn view_args(&self) -> ArgsView {
        ArgsView { is_server: self.is_server, is_client: self.is_client, remoteip: self.remoteip@ }
    }
}

/// Whether two strings hold the same characters.
fn same_text(a: &str, b: &str) -> (r: bool)
    ensures
        r == (a@ == b@),
{
    let n = a.unicode_len();
    if n != b.unicode_len() {
        return false;
    }
    let mut i: usize = 0;
    while i < n
        invariant
            n == a@.len(),
            n == b@.len(),
            0 <= i <= n,
            forall|j: int| 0 <= j < i ==> a@[j] == b@[j],
        decreases n - i,
    {
        if a.get_char(i) != b.get_char(i) {
            return false;
        }
        i = i + 1;
    }
    proof {
        assert(a@ =~= b@);
    }
    true
}

/// Reads the options from the whole argument list, program name included.
pub fn parse_args(args: &Vec<String>) -> (r: Result<CommandLineArgs, String>)
    ensures
        match parse_from(texts(args@), 0, no_options()) {
            Some(v) => r matches Ok(a) && a.view_args() == v,
            None => r matches Err(e) && e@ == "--client requires <remote_ip>"@,
        },
{
    let mut cli_args = CommandLineArgs::new();
    let ghost all = texts(args@);
    let mut i: usize = 0;
    while i < args.len()
        invariant
            all == texts(args@),
            0 <= i <= args@.len(),
            parse_from(all, i as int, cli_args.view_args()) == parse_from(all, 0, no_options()),
        decreases args@.len() - i,
    {
        let arg = args[i].as_str();
        if same_text(arg, "--server") {
            cli_args.is_server = true;
            i = i + 1;
        } else if same_text(arg, "--client") {
            if i + 1 < args.len() {
                cli_args.is_client = true;
                cli_args.remoteip = args[i + 1].clone();
                i = i + 2;
            } else {
                return Err("--client requires <remote_ip>".to_owned());
            }
        } else {
            i = i + 1;
        }
    }
    Ok(cli_args)
}

} // verus!
