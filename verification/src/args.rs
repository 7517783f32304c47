//! Command-line arguments: which partner the preview runs with.
use vstd::prelude::*;
use crate::text::same_text;

verus! {

/// Where to reach Neovim and the token that proves the request came from it.
pub struct Args {
    pub socket: String,
    pub token: String,
}

/// The partner that the launch arguments select.
pub enum Mode {
    Nvim(Args),
    File { path: String, foreground: bool },
    /// `--version`: print the version and stop.
    Version,
}

/// `Mode` with strings taken by their characters.
pub enum ModeView {
    Nvim { socket: Seq<char>, token: Seq<char> },
    File { path: Seq<char>, foreground: bool },
    Version,
}

impl View for Mode {
    type V = ModeView;

    open spec fn view(&self) -> ModeView {
        match self {
            Mode::Nvim(args) => ModeView::Nvim { socket: args.socket@, token: args.token@ },
            Mode::File { path, foreground } => ModeView::File { path: path@, foreground: *foreground },
            Mode::Version => ModeView::Version,
        }
    }
}

pub const USAGE: &'static str = "usage: mdsight --nvim <socket> --token <token> | mdsight [--foreground] <file> | mdsight --version";

/// What the scan over the arguments has collected so far.
pub struct Scan {
    pub socket: Option<Seq<char>>,
    pub token: Option<Seq<char>>,
    pub foreground: bool,
    pub version: bool,
    pub positional: Seq<Seq<char>>,
}

pub open spec fn initial_scan() -> Scan {
    Scan { socket: None, token: None, foreground: false, version: false, positional: Seq::empty() }
}

/// Whether an argument looks like an option (`--` in front).
pub open spec fn is_option(arg: Seq<char>) -> bool {
    arg.len() >= 2 && arg[0] == '-' && arg[1] == '-'
}

/// Reads the arguments from position `i` on. `--nvim` and `--token` take the next argument
/// as their value; given last, without one, they stop the scan with the usage text. An unknown
/// `--` option stops the scan with its message.
pub open spec fn scan(args: Seq<Seq<char>>, i: int, st: Scan) -> Result<Scan, Seq<char>>
    decreases args.len() + 1 - i,
{
    if i >= args.len() || i < 0 {
        Ok(st)
    } else {
        let arg = args[i];
        if arg == "--nvim"@ {
            if i + 1 < args.len() {
                scan(args, i + 2, Scan { socket: Some(args[i + 1]), ..st })
            } else {
                Err(USAGE@)
            }
        } else if arg == "--token"@ {
            if i + 1 < args.len() {
                scan(args, i + 2, Scan { token: Some(args[i + 1]), ..st })
            } else {
                Err(USAGE@)
            }
        } else if arg == "--foreground"@ {
            scan(args, i + 1, Scan { foreground: true, ..st })
        } else if arg == "--version"@ {
            scan(args, i + 1, Scan { version: true, ..st })
        } else if is_option(arg) {
            Err("unknown argument: "@ + arg)
        } else {
            scan(args, i + 1, Scan { positional: st.positional.push(arg), ..st })
        }
    }
}

/// The mode that a finished scan selects, or the usage text.
pub open spec fn decide(st: Scan) -> Result<ModeView, Seq<char>> {
    if st.version {
        if st.socket is None && st.token is None && !st.foreground && st.positional.len() == 0 {
            Ok(ModeView::Version)
        } else {
            Err(USAGE@)
        }
    } else if st.socket is Some && st.token is Some && st.positional.len() == 0 && !st.foreground {
        Ok(ModeView::Nvim { socket: st.socket->0, token: st.token->0 })
    } else if st.socket is None && st.token is None && st.positional.len() == 1 {
        Ok(ModeView::File { path: st.positional[0], foreground: st.foreground })
    } else {
        Err(USAGE@)
    }
}

/// What `parse_args` gives for the arguments (taken by their characters).
pub open spec fn parsed(args: Seq<Seq<char>>) -> Result<ModeView, Seq<char>> {
    match scan(args, 0, initial_scan()) {
        Ok(st) => decide(st),
        Err(message) => Err(message),
    }
}

pub open spec fn arg_views(argv: Seq<String>) -> Seq<Seq<char>> {
    argv.map_values(|s: String| s@)
}

pub open spec fn result_view(r: Result<Mode, String>) -> Result<ModeView, Seq<char>> {
    match r {
        Ok(mode) => Ok(mode@),
        Err(message) => Err(message@),
    }
}

fn starts_with_dashes(arg: &String) -> (r: bool)
    ensures
        r == is_option(arg@),
{
    let chars = crate::text::chars_of(arg.as_str());
    chars.len() >= 2 && chars[0] == '-' && chars[1] == '-'
}

pub open spec fn scan_state(
    socket: Option<String>,
    token: Option<String>,
    foreground: bool,
    version: bool,
    positional: Seq<String>,
) -> Scan {
    Scan {
        socket: opt_view(socket),
        token: opt_view(token),
        foreground,
        version,
        positional: positional.map_values(|s: String| s@),
    }
}

pub open spec fn opt_view(o: Option<String>) -> Option<Seq<char>> {
    match o {
        Some(s) => Some(s@),
        None => None,
    }
}

/// `--nvim <socket> --token <token>` selects the Neovim mode, a single positional argument
/// (a file path, optionally with `--foreground`) the standalone mode, and `--version` alone
/// prints the version.
pub fn parse_args(argv: Vec<String>) -> (r: Result<Mode, String>)
    ensures
        result_view(r) == parsed(arg_views(argv@)),
{
    let ghost args = arg_views(argv@);
    let mut socket: Option<String> = None;
    let mut token: Option<String> = None;
    let mut foreground = false;
    let mut version = false;
    let mut positional: Vec<String> = Vec::new();
    let mut i: usize = 0;
    let n = argv.len();
    assert(positional@.map_values(|s: String| s@) =~= Seq::<Seq<char>>::empty());
    while i < n
        invariant
            n == argv.len(),
            args == arg_views(argv@),
            args.len() == n,
            i <= n,
            scan(args, 0, initial_scan()) == scan(
                args,
                i as int,
                scan_state(socket, token, foreground, version, positional@),
            ),
        decreases n - i,
    {
        let arg = &argv[i];
        let ghost before = scan_state(socket, token, foreground, version, positional@);
        assert(args[i as int] == arg@);
        let ghost old_i = i as int;
        if same_text(arg.as_str(), "--nvim") {
            let next = i + 1;
            if next < n {
                socket = Some(argv[next].clone());
                i = next + 1;
                assert(args[next as int] == argv@[next as int]@);
            } else {
                return Err(String::from_str(USAGE));
            }
            assert(scan(args, old_i, before) == scan(args, old_i + 2, Scan { socket: Some(args[old_i + 1]), ..before }));
            assert(Scan { socket: Some(args[old_i + 1]), ..before } == Scan { socket: opt_view(socket), ..before });
            assert(scan(args, old_i, before) == scan(args, i as int, scan_state(socket, token, foreground, version, positional@)));
        } else if same_text(arg.as_str(), "--token") {
            let next = i + 1;
            if next < n {
                token = Some(argv[next].clone());
                i = next + 1;
                assert(args[next as int] == argv@[next as int]@);
            } else {
                return Err(String::from_str(USAGE));
            }
            assert(scan(args, old_i, before) == scan(args, old_i + 2, Scan { token: Some(args[old_i + 1]), ..before }));
            assert(Scan { token: Some(args[old_i + 1]), ..before } == Scan { token: opt_view(token), ..before });
            assert(scan(args, old_i, before) == scan(args, i as int, scan_state(socket, token, foreground, version, positional@)));
        } else if same_text(arg.as_str(), "--foreground") {
            foreground = true;
            i = i + 1;
            assert(scan(args, old_i, before) == scan(args, i as int, scan_state(socket, token, foreground, version, positional@)));
        } else if same_text(arg.as_str(), "--version") {
            version = true;
            i = i + 1;
            assert(scan(args, old_i, before) == scan(args, i as int, scan_state(socket, token, foreground, version, positional@)));
        } else if starts_with_dashes(arg) {
            let mut message = String::from_str("unknown argument: ");
            message.append(arg.as_str());
            proof {
                reveal_strlit("unknown argument: ");
            }
            return Err(message);
        } else {
            positional.push(arg.clone());
            i = i + 1;
            proof {
                assert(positional@.map_values(|s: String| s@) =~= before.positional.push(arg@));
            }
            assert(scan(args, old_i, before) == scan(args, i as int, scan_state(socket, token, foreground, version, positional@)));
        }
    }
    if version {
        if socket.is_none() && token.is_none() && !foreground && positional.len() == 0 {
            return Ok(Mode::Version);
        }
        return Err(String::from_str(USAGE));
    }
    match (socket, token) {
        (Some(socket), Some(token)) => {
            if positional.len() == 0 && !foreground {
                Ok(Mode::Nvim(Args { socket, token }))
            } else {
                Err(String::from_str(USAGE))
            }
        },
        (None, None) => {
            if positional.len() == 1 {
                let path = positional.pop().unwrap();
                Ok(Mode::File { path, foreground })
            } else {
                Err(String::from_str(USAGE))
            }
        },
        _ => Err(String::from_str(USAGE)),
    }
}

proof fn lemma_flags_differ()
    ensures
        "--version"@ != "--nvim"@,
        "--version"@ != "--token"@,
        "--version"@ != "--foreground"@,
        is_option("--version"@),
{
    reveal_strlit("--version");
    reveal_strlit("--nvim");
    reveal_strlit("--token");
    reveal_strlit("--foreground");
    assert("--version"@.len() == 9);
    assert("--nvim"@.len() == 6);
    assert("--token"@.len() == 7);
    assert("--foreground"@.len() == 12);
}

proof fn lemma_only_version(args: Seq<Seq<char>>, i: int, st: Scan)
    requires
        0 <= i,
        forall|k: int| i <= k < args.len() ==> args[k] == "--version"@,
    ensures
        scan(args, i, st) == Ok::<Scan, Seq<char>>(
            Scan { version: st.version || i < args.len(), ..st },
        ),
    decreases args.len() - i,
{
    lemma_flags_differ();
    if i < args.len() {
        lemma_only_version(args, i + 1, Scan { version: true, ..st });
    }
}

/// `--version` on its own (repeated or not) prints the version.
pub proof fn law_version_alone(args: Seq<Seq<char>>)
    requires
        args.len() > 0,
        forall|k: int| 0 <= k < args.len() ==> args[k] == "--version"@,
    ensures
        parsed(args) == Ok::<ModeView, Seq<char>>(ModeView::Version),
{
    lemma_only_version(args, 0, initial_scan());
}

/// What a finished scan holds comes from the arguments: a socket or token is the argument right
/// after a `--nvim` or `--token`, and the positional arguments are arguments that are no options.
pub open spec fn scan_from_args(args: Seq<Seq<char>>, st: Scan) -> bool {
    &&& (st.socket matches Some(v) ==> exists|k: int|
        0 <= k && k + 1 < args.len() && args[k] == "--nvim"@ && #[trigger] args[k + 1] == v)
    &&& (st.token matches Some(v) ==> exists|k: int|
        0 <= k && k + 1 < args.len() && args[k] == "--token"@ && #[trigger] args[k + 1] == v)
    &&& forall|m: int| 0 <= m < st.positional.len() ==> args.contains(#[trigger] st.positional[m])
        && !is_option(st.positional[m])
}

proof fn lemma_scan_from_args(args: Seq<Seq<char>>, i: int, st: Scan)
    requires
        0 <= i,
        scan_from_args(args, st),
    ensures
        scan(args, i, st) matches Ok(done) ==> scan_from_args(args, done),
    decreases args.len() + 1 - i,
{
    if i < args.len() {
        let arg = args[i];
        if arg == "--nvim"@ {
            if i + 1 < args.len() {
                assert(args[i] == "--nvim"@ && args[i + 1] == args[i + 1]);
                lemma_scan_from_args(args, i + 2, Scan { socket: Some(args[i + 1]), ..st });
            }
        } else if arg == "--token"@ {
            if i + 1 < args.len() {
                assert(args[i] == "--token"@ && args[i + 1] == args[i + 1]);
                lemma_scan_from_args(args, i + 2, Scan { token: Some(args[i + 1]), ..st });
            }
        } else if arg == "--foreground"@ {
            lemma_scan_from_args(args, i + 1, Scan { foreground: true, ..st });
        } else if arg == "--version"@ {
            lemma_scan_from_args(args, i + 1, Scan { version: true, ..st });
        } else if !is_option(arg) {
            let next = Scan { positional: st.positional.push(arg), ..st };
            assert forall|m: int| 0 <= m < next.positional.len() implies args.contains(
                #[trigger] next.positional[m],
            ) && !is_option(next.positional[m]) by {
                if m == st.positional.len() {
                    assert(args[i] == arg);
                }
            }
            lemma_scan_from_args(args, i + 1, next);
        }
    }
}

/// The standalone mode opens one of the arguments, which is no option; the Neovim mode takes
/// its socket and token from the arguments right after `--nvim` and `--token`.
pub proof fn law_modes_come_from_arguments(args: Seq<Seq<char>>)
    ensures
        parsed(args) matches Ok(ModeView::File { path, .. }) ==> args.contains(path) && !is_option(
            path,
        ),
        parsed(args) matches Ok(ModeView::Nvim { socket, token }) ==> (exists|k: int|
            0 <= k && k + 1 < args.len() && args[k] == "--nvim"@ && #[trigger] args[k + 1] == socket)
            && (exists|k: int|
            0 <= k && k + 1 < args.len() && args[k] == "--token"@ && #[trigger] args[k + 1] == token),
{
    lemma_scan_from_args(args, 0, initial_scan());
}

proof fn lemma_scan_keeps_flags(args: Seq<Seq<char>>, i: int, st: Scan)
    requires
        0 <= i,
    ensures
        scan(args, i, st) matches Ok(done) ==> (st.foreground ==> done.foreground)
            && done.positional.len() >= st.positional.len() && (st.version ==> done.version)
            && (st.socket is Some ==> done.socket is Some) && (st.token is Some
            ==> done.token is Some),
    decreases args.len() + 1 - i,
{
    if i < args.len() {
        let arg = args[i];
        if arg == "--nvim"@ {
            if i + 1 < args.len() {
                lemma_scan_keeps_flags(args, i + 2, Scan { socket: Some(args[i + 1]), ..st });
            }
        } else if arg == "--token"@ {
            if i + 1 < args.len() {
                lemma_scan_keeps_flags(args, i + 2, Scan { token: Some(args[i + 1]), ..st });
            }
        } else if arg == "--foreground"@ {
            lemma_scan_keeps_flags(args, i + 1, Scan { foreground: true, ..st });
        } else if arg == "--version"@ {
            lemma_scan_keeps_flags(args, i + 1, Scan { version: true, ..st });
        } else if !is_option(arg) {
            lemma_scan_keeps_flags(args, i + 1, Scan { positional: st.positional.push(arg), ..st });
        }
    }
}

proof fn lemma_clean_scan_means_only_version(args: Seq<Seq<char>>, i: int, st: Scan)
    requires
        0 <= i,
    ensures
        scan(args, i, st) matches Ok(done) && done.socket is None && done.token is None
            && !done.foreground && done.positional.len() == st.positional.len() ==> forall|k: int|
            i <= k < args.len() ==> args[k] == "--version"@,
    decreases args.len() + 1 - i,
{
    if i < args.len() {
        let arg = args[i];
        if arg == "--nvim"@ {
            if i + 1 < args.len() {
                lemma_scan_keeps_flags(args, i + 2, Scan { socket: Some(args[i + 1]), ..st });
            }
        } else if arg == "--token"@ {
            if i + 1 < args.len() {
                lemma_scan_keeps_flags(args, i + 2, Scan { token: Some(args[i + 1]), ..st });
            }
        } else if arg == "--foreground"@ {
            lemma_scan_keeps_flags(args, i + 1, Scan { foreground: true, ..st });
        } else if arg == "--version"@ {
            lemma_clean_scan_means_only_version(args, i + 1, Scan { version: true, ..st });
        } else if !is_option(arg) {
            lemma_scan_keeps_flags(args, i + 1, Scan { positional: st.positional.push(arg), ..st });
        }
    }
}

/// `--version` is not combined with other arguments: the version is printed exactly when
/// every argument is `--version` (and there is at least one).
pub proof fn law_version_not_combined(args: Seq<Seq<char>>)
    ensures
        parsed(args) == Ok::<ModeView, Seq<char>>(ModeView::Version) <==> (args.len() > 0 && forall|
            k: int,
        | 0 <= k < args.len() ==> args[k] == "--version"@),
{
    lemma_clean_scan_means_only_version(args, 0, initial_scan());
    lemma_scan_keeps_flags(args, 0, initial_scan());
    if args.len() > 0 && forall|k: int| 0 <= k < args.len() ==> args[k] == "--version"@ {
        law_version_alone(args);
    }
}

/// The arguments from `i` on are `--foreground`, but for the one at `j` (if `j` is among them),
/// which is no option.
pub open spec fn file_from(args: Seq<Seq<char>>, i: int, j: int) -> bool {
    forall|k: int|
        i <= k < args.len() ==> (if k == j {
            !is_option(args[k])
        } else {
            args[k] == "--foreground"@
        })
}

/// The arguments name one file, at `j`, and are otherwise all `--foreground`.
pub open spec fn file_arguments(args: Seq<Seq<char>>, j: int) -> bool {
    0 <= j < args.len() && file_from(args, 0, j)
}

proof fn lemma_foreground_is_option()
    ensures
        is_option("--foreground"@),
{
    reveal_strlit("--foreground");
}

proof fn lemma_file_from_scans(args: Seq<Seq<char>>, i: int, st: Scan, j: int)
    requires
        0 <= i <= args.len(),
        file_from(args, i, j),
    ensures
        scan(args, i, st) == Ok::<Scan, Seq<char>>(
            Scan {
                foreground: st.foreground || exists|k: int|
                    i <= k < args.len() && args[k] == "--foreground"@,
                positional: if i <= j < args.len() {
                    st.positional.push(args[j])
                } else {
                    st.positional
                },
                ..st
            },
        ),
    decreases args.len() - i,
{
    lemma_flags_differ();
    reveal_strlit("--foreground");
    reveal_strlit("--nvim");
    reveal_strlit("--token");
    if i < args.len() {
        let arg = args[i];
        if i == j {
            assert(!is_option(arg));
            assert(arg != "--nvim"@ && arg != "--token"@ && arg != "--version"@ && arg != "--foreground"@);
            let next = Scan { positional: st.positional.push(arg), ..st };
            lemma_file_from_scans(args, i + 1, next, j);
            assert(forall|k: int| i <= k < args.len() && args[k] == "--foreground"@ ==> i + 1 <= k);
        } else {
            assert(arg == "--foreground"@);
            assert("--foreground"@.len() != "--nvim"@.len() && "--foreground"@.len() != "--token"@.len());
            lemma_file_from_scans(args, i + 1, Scan { foreground: true, ..st }, j);
        }
    }
}

proof fn lemma_file_scan_shape(args: Seq<Seq<char>>, i: int, st: Scan)
    requires
        0 <= i <= args.len(),
        st.socket is None,
        st.token is None,
        !st.version,
    ensures
        scan(args, i, st) matches Ok(done) ==> (done.socket is None && done.token is None
            && !done.version && done.positional.len() == st.positional.len() ==> done.positional
            == st.positional && forall|k: int| i <= k < args.len() ==> args[k] == "--foreground"@),
        scan(args, i, st) matches Ok(done) ==> (done.socket is None && done.token is None
            && !done.version && done.positional.len() == st.positional.len() + 1 ==> exists|j: int|
            i <= j < args.len() && file_from(args, i, j) && done.positional == st.positional.push(
                args[j],
            )),
    decreases args.len() - i,
{
    lemma_foreground_is_option();
    if i < args.len() {
        let arg = args[i];
        if arg == "--nvim"@ {
            if i + 1 < args.len() {
                lemma_scan_keeps_flags(args, i + 2, Scan { socket: Some(args[i + 1]), ..st });
            }
        } else if arg == "--token"@ {
            if i + 1 < args.len() {
                lemma_scan_keeps_flags(args, i + 2, Scan { token: Some(args[i + 1]), ..st });
            }
        } else if arg == "--foreground"@ {
            let next = Scan { foreground: true, ..st };
            lemma_file_scan_shape(args, i + 1, next);
            if let Ok(done) = scan(args, i, st) {
                if done.socket is None && done.token is None && !done.version
                    && done.positional.len() == st.positional.len() + 1 {
                    let j = choose|j: int|
                        i + 1 <= j < args.len() && file_from(args, i + 1, j) && done.positional
                            == st.positional.push(args[j]);
                    assert(file_from(args, i, j));
                }
            }
        } else if arg == "--version"@ {
            lemma_scan_keeps_flags(args, i + 1, Scan { version: true, ..st });
        } else if !is_option(arg) {
            let next = Scan { positional: st.positional.push(arg), ..st };
            lemma_file_scan_shape(args, i + 1, next);
            lemma_scan_keeps_flags(args, i + 1, next);
            if let Ok(done) = scan(args, i, st) {
                if done.socket is None && done.token is None && !done.version
                    && done.positional.len() == st.positional.len() + 1 {
                    assert(file_from(args, i, i));
                }
            }
        }
    }
}

/// The standalone mode is chosen exactly when the arguments are one path that is no option and
/// otherwise only `--foreground`; it opens that path, in the foreground when `--foreground` was
/// given.
pub proof fn law_file_mode(args: Seq<Seq<char>>)
    ensures
        parsed(args) matches Ok(ModeView::File { .. }) <==> exists|j: int| file_arguments(args, j),
        forall|j: int|
            file_arguments(args, j) ==> parsed(args) == Ok::<ModeView, Seq<char>>(
                ModeView::File { path: args[j], foreground: args.contains("--foreground"@) },
            ),
{
    assert forall|j: int| file_arguments(args, j) implies parsed(args) == Ok::<ModeView, Seq<char>>(
        ModeView::File { path: args[j], foreground: args.contains("--foreground"@) },
    ) by {
        lemma_file_from_scans(args, 0, initial_scan(), j);
        assert(initial_scan().positional.push(args[j]).len() == 1);
        assert(initial_scan().positional.push(args[j])[0] == args[j]);
        assert((exists|k: int| 0 <= k < args.len() && args[k] == "--foreground"@) == args.contains(
            "--foreground"@,
        ));
    }
    lemma_file_scan_shape(args, 0, initial_scan());
    lemma_scan_keeps_flags(args, 0, initial_scan());
    if parsed(args) matches Ok(ModeView::File { .. }) {
        let done = scan(args, 0, initial_scan())->Ok_0;
        let j = choose|j: int|
            0 <= j < args.len() && file_from(args, 0, j) && done.positional
                == initial_scan().positional.push(args[j]);
        assert(file_arguments(args, j));
    }
}

/// The arguments from the even position `i` on come in pairs, each a `--nvim` or `--token` and
/// its value.
pub open spec fn pairs_from(args: Seq<Seq<char>>, i: int) -> bool {
    &&& (args.len() - i) % 2 == 0
    &&& forall|k: int|
        i <= k < args.len() && k % 2 == 0 ==> (#[trigger] args[k] == "--nvim"@ || args[k]
            == "--token"@)
}

/// The arguments are only `--nvim <socket>` and `--token <token>` pairs.
pub open spec fn option_pairs(args: Seq<Seq<char>>) -> bool {
    pairs_from(args, 0)
}

/// Whether the pair at `k` gives `flag` for the last time.
pub open spec fn last_flag(args: Seq<Seq<char>>, k: int, flag: Seq<char>) -> bool {
    &&& 0 <= k < args.len()
    &&& k % 2 == 0
    &&& args[k] == flag
    &&& forall|m: int| k < m < args.len() && m % 2 == 0 ==> #[trigger] args[m] != flag
}

/// Whether an even position from `i` on holds `flag`.
pub open spec fn has_flag_from(args: Seq<Seq<char>>, i: int, flag: Seq<char>) -> bool {
    exists|k: int| i <= k < args.len() && k % 2 == 0 && #[trigger] args[k] == flag
}

proof fn lemma_pairs_scan(args: Seq<Seq<char>>, i: int, st: Scan)
    requires
        0 <= i <= args.len(),
        i % 2 == 0,
        pairs_from(args, i),
    ensures
        scan(args, i, st) matches Ok(done) && done.foreground == st.foreground && done.version
            == st.version && done.positional == st.positional && (has_flag_from(args, i, "--nvim"@)
            ==> done.socket is Some) && (!has_flag_from(args, i, "--nvim"@) ==> done.socket
            == st.socket) && (has_flag_from(args, i, "--token"@) ==> done.token is Some) && (
        !has_flag_from(args, i, "--token"@) ==> done.token == st.token),
    decreases args.len() - i,
{
    reveal_strlit("--nvim");
    reveal_strlit("--token");
    assert("--nvim"@.len() != "--token"@.len());
    if i < args.len() {
        assert(args[i] == "--nvim"@ || args[i] == "--token"@);
        assert(pairs_from(args, i + 2));
        if args[i] == "--nvim"@ {
            let next = Scan { socket: Some(args[i + 1]), ..st };
            lemma_pairs_scan(args, i + 2, next);
            lemma_scan_keeps_flags(args, i + 2, next);
            assert(has_flag_from(args, i, "--token"@) == has_flag_from(args, i + 2, "--token"@)) by {
                if has_flag_from(args, i, "--token"@) {
                    let k = choose|k: int| i <= k < args.len() && k % 2 == 0 && args[k] == "--token"@;
                    assert(k != i && k != i + 1);
                }
            }
        } else {
            let next = Scan { token: Some(args[i + 1]), ..st };
            lemma_pairs_scan(args, i + 2, next);
            lemma_scan_keeps_flags(args, i + 2, next);
            assert(has_flag_from(args, i, "--nvim"@) == has_flag_from(args, i + 2, "--nvim"@)) by {
                if has_flag_from(args, i, "--nvim"@) {
                    let k = choose|k: int| i <= k < args.len() && k % 2 == 0 && args[k] == "--nvim"@;
                    assert(k != i && k != i + 1);
                }
            }
        }
    }
}

proof fn lemma_pairs_values(args: Seq<Seq<char>>, i: int, st: Scan, kn: int, kt: int)
    requires
        0 <= i <= args.len(),
        i % 2 == 0,
        pairs_from(args, i),
    ensures
        scan(args, i, st) matches Ok(done) && (last_flag(args, kn, "--nvim"@) && i <= kn
            ==> done.socket == Some(args[kn + 1])) && (last_flag(args, kt, "--token"@) && i <= kt
            ==> done.token == Some(args[kt + 1])),
    decreases args.len() - i,
{
    reveal_strlit("--nvim");
    reveal_strlit("--token");
    assert("--nvim"@.len() != "--token"@.len());
    lemma_pairs_scan(args, i, st);
    if i < args.len() {
        assert(pairs_from(args, i + 2));
        let next = if args[i] == "--nvim"@ {
            Scan { socket: Some(args[i + 1]), ..st }
        } else {
            Scan { token: Some(args[i + 1]), ..st }
        };
        assert(scan(args, i, st) == scan(args, i + 2, next));
        lemma_pairs_values(args, i + 2, next, kn, kt);
        lemma_pairs_scan(args, i + 2, next);
        if last_flag(args, kn, "--nvim"@) && kn == i {
            assert(!has_flag_from(args, i + 2, "--nvim"@));
        }
        if last_flag(args, kt, "--token"@) && kt == i {
            assert(!has_flag_from(args, i + 2, "--token"@));
        }
    }
}

proof fn lemma_nvim_scan_shape(args: Seq<Seq<char>>, i: int, st: Scan)
    requires
        0 <= i <= args.len(),
        i % 2 == 0,
    ensures
        scan(args, i, st) matches Ok(done) ==> (!done.version && !done.foreground
            && done.positional.len() == st.positional.len() ==> pairs_from(args, i)),
    decreases args.len() - i,
{
    if i < args.len() {
        let arg = args[i];
        if arg == "--nvim"@ {
            if i + 1 < args.len() {
                lemma_nvim_scan_shape(args, i + 2, Scan { socket: Some(args[i + 1]), ..st });
            }
        } else if arg == "--token"@ {
            if i + 1 < args.len() {
                lemma_nvim_scan_shape(args, i + 2, Scan { token: Some(args[i + 1]), ..st });
            }
        } else if arg == "--foreground"@ {
            lemma_scan_keeps_flags(args, i + 1, Scan { foreground: true, ..st });
        } else if arg == "--version"@ {
            lemma_scan_keeps_flags(args, i + 1, Scan { version: true, ..st });
        } else if !is_option(arg) {
            lemma_scan_keeps_flags(args, i + 1, Scan { positional: st.positional.push(arg), ..st });
        }
    }
}

/// The Neovim mode is chosen exactly when the arguments are only `--nvim <socket>` and
/// `--token <token>` pairs, with both flags given; it takes the value of the last of each.
pub proof fn law_nvim_mode(args: Seq<Seq<char>>)
    ensures
        parsed(args) matches Ok(ModeView::Nvim { .. }) <==> option_pairs(args) && has_flag_from(
            args,
            0,
            "--nvim"@,
        ) && has_flag_from(args, 0, "--token"@),
        forall|kn: int, kt: int|
            option_pairs(args) && last_flag(args, kn, "--nvim"@) && last_flag(args, kt, "--token"@)
                ==> parsed(args) == Ok::<ModeView, Seq<char>>(
                ModeView::Nvim { socket: args[kn + 1], token: args[kt + 1] },
            ),
{
    lemma_nvim_scan_shape(args, 0, initial_scan());
    if option_pairs(args) {
        lemma_pairs_scan(args, 0, initial_scan());
        assert forall|kn: int, kt: int|
            last_flag(args, kn, "--nvim"@) && last_flag(args, kt, "--token"@) implies parsed(args)
            == Ok::<ModeView, Seq<char>>(
            ModeView::Nvim { socket: args[kn + 1], token: args[kt + 1] },
        ) by {
            lemma_pairs_values(args, 0, initial_scan(), kn, kt);
            assert(has_flag_from(args, 0, "--nvim"@));
            assert(has_flag_from(args, 0, "--token"@));
        }
    }
}

/// An option that `parse_args` does not know.
pub open spec fn unknown_option(arg: Seq<char>) -> bool {
    is_option(arg) && arg != "--nvim"@ && arg != "--token"@ && arg != "--foreground"@ && arg
        != "--version"@
}

proof fn lemma_scan_errors(args: Seq<Seq<char>>, i: int, st: Scan)
    requires
        0 <= i,
    ensures
        scan(args, i, st) matches Err(m) ==> m == USAGE@ || exists|k: int|
            i <= k < args.len() && unknown_option(args[k]) && m == "unknown argument: "@ + args[k],
    decreases args.len() + 1 - i,
{
    if i < args.len() {
        let arg = args[i];
        if arg == "--nvim"@ {
            if i + 1 < args.len() {
                lemma_scan_errors(args, i + 2, Scan { socket: Some(args[i + 1]), ..st });
            }
        } else if arg == "--token"@ {
            if i + 1 < args.len() {
                lemma_scan_errors(args, i + 2, Scan { token: Some(args[i + 1]), ..st });
            }
        } else if arg == "--foreground"@ {
            lemma_scan_errors(args, i + 1, Scan { foreground: true, ..st });
        } else if arg == "--version"@ {
            lemma_scan_errors(args, i + 1, Scan { version: true, ..st });
        } else if !is_option(arg) {
            lemma_scan_errors(args, i + 1, Scan { positional: st.positional.push(arg), ..st });
        } else {
            assert(unknown_option(args[i]));
        }
    }
}

proof fn lemma_scan_through_prefix(args: Seq<Seq<char>>, p: int, i: int, st: Scan)
    requires
        0 <= i <= p <= args.len(),
    ensures
        scan(args.subrange(0, p), i, st) matches Ok(mid) ==> scan(args, i, st) == scan(args, p, mid),
    decreases p - i,
{
    let prefix = args.subrange(0, p);
    if i < p {
        let arg = args[i];
        assert(prefix[i] == arg);
        if arg == "--nvim"@ {
            if i + 1 < p {
                assert(prefix[i + 1] == args[i + 1]);
                lemma_scan_through_prefix(args, p, i + 2, Scan { socket: Some(args[i + 1]), ..st });
            }
        } else if arg == "--token"@ {
            if i + 1 < p {
                assert(prefix[i + 1] == args[i + 1]);
                lemma_scan_through_prefix(args, p, i + 2, Scan { token: Some(args[i + 1]), ..st });
            }
        } else if arg == "--foreground"@ {
            lemma_scan_through_prefix(args, p, i + 1, Scan { foreground: true, ..st });
        } else if arg == "--version"@ {
            lemma_scan_through_prefix(args, p, i + 1, Scan { version: true, ..st });
        } else if !is_option(arg) {
            lemma_scan_through_prefix(
                args,
                p,
                i + 1,
                Scan { positional: st.positional.push(arg), ..st },
            );
        }
    }
}

/// An error names an unknown option that was given, or is the usage text; with no unknown
/// option among the arguments it is the usage text.
pub proof fn law_errors(args: Seq<Seq<char>>)
    ensures
        parsed(args) matches Err(m) ==> m == USAGE@ || exists|k: int|
            0 <= k < args.len() && unknown_option(args[k]) && m == "unknown argument: "@ + args[k],
        (forall|k: int| 0 <= k < args.len() ==> !unknown_option(#[trigger] args[k])) ==> (
        parsed(args) matches Err(m) ==> m == USAGE@),
{
    lemma_scan_errors(args, 0, initial_scan());
}

/// The first unknown option that the arguments reach is refused by name: where the arguments
/// before it are read without fault (each `--nvim` and `--token` there has its value before it),
/// the result is the error that names it.
pub proof fn law_unknown_option_named(args: Seq<Seq<char>>, p: int)
    requires
        0 <= p < args.len(),
        unknown_option(args[p]),
        scan(args.subrange(0, p), 0, initial_scan()) is Ok,
    ensures
        parsed(args) == Err::<ModeView, Seq<char>>("unknown argument: "@ + args[p]),
{
    lemma_scan_through_prefix(args, p, 0, initial_scan());
}

} // verus!
