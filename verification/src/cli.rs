//! The command line: `-m/--mode`, `-o/--output`, `-d/--dir`, `-n/--name`,
//! `-r/--geometry`, `-c/--config` (each taking one value) and `-h/--help`.
//!
//! An option's value is the rest of its token (`-mregion`, `-m=region`,
//! `--mode=region`) or else the next token, which must not itself look like
//! an option (`-x`, `--x`, `--`). An option may be given at most once, `--`
//! ends the options, and nothing else may stand on the line.

use vstd::prelude::*;
use crate::text::{chars_eq, find_char, split_once, to_chars};

verus! {

/// What to capture.
#[derive(Debug, Clone, Copy, PartialEq, Eq, Structural)]
pub enum Mode {
    Full,
    Window,
    Region,
}

/// Where the captured image goes.
#[derive(Debug, Clone, Copy, PartialEq, Eq, Structural)]
pub enum Output {
    File,
    Clipboard,
}

/// Why a command line was refused.
#[derive(Debug, Clone, Copy, PartialEq, Eq, Structural)]
pub enum CliError {
    /// `-h` or `--help` was given: show the help text.
    Help,
    /// An option name that the tool does not know.
    UnknownArgument,
    /// A token that is not an option and not an option's value.
    UnexpectedArgument,
    /// An option without its value.
    MissingValue,
    /// `--mode` or `--output` with a value that names no choice.
    InvalidValue,
    /// An option given twice.
    DuplicateArgument,
    /// `--help=...`: a value attached to an option that takes none.
    UnexpectedValue,
}

/// The options that take a value.
#[derive(Debug, Clone, Copy, PartialEq, Eq, Structural)]
pub enum Opt {
    Mode,
    Output,
    Dir,
    Name,
    Geometry,
    Config,
}

/// The parsed command line.
#[derive(Debug)]
pub struct Args {
    pub mode: Mode,
    pub output: Output,
    pub dir: Option<String>,
    pub name: Option<String>,
    pub geometry: Option<String>,
    pub config: Option<String>,
}

/// An optional string as an optional character sequence.
pub open spec fn opt_chars(o: Option<String>) -> Option<Seq<char>> {
    match o {
        Some(s) => Some(s@),
        None => None,
    }
}

/// The parsed command line as values.
pub struct ArgsModel {
    pub mode: Mode,
    pub output: Output,
    pub dir: Option<Seq<char>>,
    pub name: Option<Seq<char>>,
    pub geometry: Option<Seq<char>>,
    pub config: Option<Seq<char>>,
}

impl View for Args {
    type V = ArgsModel;

    open spec fn view(&self) -> ArgsModel {
        ArgsModel {
            mode: self.mode,
            output: self.output,
            dir: opt_chars(self.dir),
            name: opt_chars(self.name),
            geometry: opt_chars(self.geometry),
            config: opt_chars(self.config),
        }
    }
}

/// The options seen so far.
pub struct Fields {
    pub mode: Option<Mode>,
    pub output: Option<Output>,
    pub dir: Option<Seq<char>>,
    pub name: Option<Seq<char>>,
    pub geometry: Option<Seq<char>>,
    pub config: Option<Seq<char>>,
}

/// The state of a left-to-right scan of the tokens.
pub struct ScanModel {
    pub fields: Fields,
    /// An option that waits for its value in the next token.
    pub pending: Option<Opt>,
    /// An option was left without a value.
    pub missing: bool,
    /// `--` was seen.
    pub trailing: bool,
}

pub open spec fn initial_scan() -> ScanModel {
    ScanModel {
        fields: Fields { mode: None, output: None, dir: None, name: None, geometry: None, config: None },
        pending: None,
        missing: false,
        trailing: false,
    }
}

pub open spec fn is_set(f: Fields, o: Opt) -> bool {
    match o {
        Opt::Mode => f.mode is Some,
        Opt::Output => f.output is Some,
        Opt::Dir => f.dir is Some,
        Opt::Name => f.name is Some,
        Opt::Geometry => f.geometry is Some,
        Opt::Config => f.config is Some,
    }
}

pub open spec fn mode_named(v: Seq<char>) -> Option<Mode> {
    if v == "full"@ {
        Some(Mode::Full)
    } else if v == "window"@ {
        Some(Mode::Window)
    } else if v == "region"@ {
        Some(Mode::Region)
    } else {
        None
    }
}

pub open spec fn output_named(v: Seq<char>) -> Option<Output> {
    if v == "file"@ {
        Some(Output::File)
    } else if v == "clipboard"@ {
        Some(Output::Clipboard)
    } else {
        None
    }
}

/// Records the value `v` of option `o`.
pub open spec fn assign(f: Fields, o: Opt, v: Seq<char>) -> Result<Fields, CliError> {
    if is_set(f, o) {
        Err(CliError::DuplicateArgument)
    } else {
        match o {
            Opt::Mode => match mode_named(v) {
                Some(m) => Ok(Fields { mode: Some(m), ..f }),
                None => Err(CliError::InvalidValue),
            },
            Opt::Output => match output_named(v) {
                Some(m) => Ok(Fields { output: Some(m), ..f }),
                None => Err(CliError::InvalidValue),
            },
            Opt::Dir => Ok(Fields { dir: Some(v), ..f }),
            Opt::Name => Ok(Fields { name: Some(v), ..f }),
            Opt::Geometry => Ok(Fields { geometry: Some(v), ..f }),
            Opt::Config => Ok(Fields { config: Some(v), ..f }),
        }
    }
}

pub open spec fn long_name(name: Seq<char>) -> Option<Opt> {
    if name == "mode"@ {
        Some(Opt::Mode)
    } else if name == "output"@ {
        Some(Opt::Output)
    } else if name == "dir"@ {
        Some(Opt::Dir)
    } else if name == "name"@ {
        Some(Opt::Name)
    } else if name == "geometry"@ {
        Some(Opt::Geometry)
    } else if name == "config"@ {
        Some(Opt::Config)
    } else {
        None
    }
}

pub open spec fn short_name(c: char) -> Option<Opt> {
    if c == 'm' {
        Some(Opt::Mode)
    } else if c == 'o' {
        Some(Opt::Output)
    } else if c == 'd' {
        Some(Opt::Dir)
    } else if c == 'n' {
        Some(Opt::Name)
    } else if c == 'r' {
        Some(Opt::Geometry)
    } else if c == 'c' {
        Some(Opt::Config)
    } else {
        None
    }
}

/// An occurrence of option `o`, with the value attached to its token if any.
/// An option still waiting for its value is left without one.
pub open spec fn begin(st: ScanModel, o: Opt, attached: Option<Seq<char>>) -> Result<ScanModel, CliError> {
    let missing = st.missing || st.pending is Some;
    if is_set(st.fields, o) {
        Err(CliError::DuplicateArgument)
    } else {
        match attached {
            Some(v) => match assign(st.fields, o, v) {
                Ok(f) => Ok(ScanModel { fields: f, pending: None, missing, trailing: st.trailing }),
                Err(e) => Err(e),
            },
            None => Ok(ScanModel { fields: st.fields, pending: Some(o), missing, trailing: st.trailing }),
        }
    }
}

/// The value attached to a short option's token: what follows the option
/// letter, without a leading `=`.
pub open spec fn short_attached(t: Seq<char>) -> Option<Seq<char>> {
    let rest = t.subrange(2, t.len() as int);
    if rest.len() == 0 {
        None
    } else if rest[0] == '=' {
        Some(rest.subrange(1, rest.len() as int))
    } else {
        Some(rest)
    }
}

/// The name and attached value of a long option token `--name[=value]`.
pub open spec fn long_parts(t: Seq<char>) -> (Seq<char>, Option<Seq<char>>) {
    let body = t.subrange(2, t.len() as int);
    match split_once(body, '=') {
        Some((n, v)) => (n, Some(v)),
        None => (body, None),
    }
}

/// One token of the scan.
pub open spec fn step(st: ScanModel, t: Seq<char>) -> Result<ScanModel, CliError> {
    if st.trailing {
        Err(CliError::UnexpectedArgument)
    } else if t == seq!['-', '-'] {
        Ok(ScanModel { trailing: true, ..st })
    } else if t.len() >= 2 && t[0] == '-' && t[1] == '-' {
        let (name, value) = long_parts(t);
        if name == "help"@ {
            if value is Some {
                Err(CliError::UnexpectedValue)
            } else {
                Err(CliError::Help)
            }
        } else {
            match long_name(name) {
                Some(o) => begin(st, o, value),
                None => Err(CliError::UnknownArgument),
            }
        }
    } else if t.len() >= 2 && t[0] == '-' {
        if t[1] == 'h' {
            Err(CliError::Help)
        } else {
            match short_name(t[1]) {
                Some(o) => begin(st, o, short_attached(t)),
                None => Err(CliError::UnknownArgument),
            }
        }
    } else {
        match st.pending {
            Some(o) => match assign(st.fields, o, t) {
                Ok(f) => Ok(ScanModel { fields: f, pending: None, ..st }),
                Err(e) => Err(e),
            },
            None => Err(CliError::UnexpectedArgument),
        }
    }
}

/// The scan of the first `n` tokens.
pub open spec fn scan(tokens: Seq<Seq<char>>, n: nat) -> Result<ScanModel, CliError>
    decreases n,
{
    if n == 0 {
        Ok(initial_scan())
    } else {
        match scan(tokens, (n - 1) as nat) {
            Ok(st) => step(st, tokens[n - 1]),
            Err(e) => Err(e),
        }
    }
}

/// The end of the scan: every option has its value; defaults fill the rest.
pub open spec fn finish(st: ScanModel) -> Result<ArgsModel, CliError> {
    if st.pending is Some || st.missing {
        Err(CliError::MissingValue)
    } else {
        Ok(
            ArgsModel {
                mode: match st.fields.mode {
                    Some(m) => m,
                    None => Mode::Full,
                },
                output: match st.fields.output {
                    Some(o) => o,
                    None => Output::File,
                },
                dir: st.fields.dir,
                name: st.fields.name,
                geometry: st.fields.geometry,
                config: st.fields.config,
            },
        )
    }
}

/// The command line `args` (the program name first) as the tool reads it.
pub open spec fn spec_parse_args(args: Seq<Seq<char>>) -> Result<ArgsModel, CliError> {
    let tokens = if args.len() > 0 {
        args.drop_first()
    } else {
        args
    };
    match scan(tokens, tokens.len()) {
        Ok(st) => finish(st),
        Err(e) => Err(e),
    }
}

/// Once the scan fails it stays failed.
proof fn lemma_scan_stays_failed(tokens: Seq<Seq<char>>, k: nat, n: nat, e: CliError)
    requires
        k <= n,
        scan(tokens, k) == Err::<ScanModel, CliError>(e),
    ensures
        scan(tokens, n) == Err::<ScanModel, CliError>(e),
    decreases n - k,
{
    if k < n {
        lemma_scan_stays_failed(tokens, (k + 1) as nat, n, e);
    }
}

struct Scan {
    mode: Option<Mode>,
    output: Option<Output>,
    dir: Option<String>,
    name: Option<String>,
    geometry: Option<String>,
    config: Option<String>,
    pending: Option<Opt>,
    missing: bool,
    trailing: bool,
}

impl View for Scan {
    type V = ScanModel;

    closed spec fn view(&self) -> ScanModel {
        ScanModel {
            fields: Fields {
                mode: self.mode,
                output: self.output,
                dir: opt_chars(self.dir),
                name: opt_chars(self.name),
                geometry: opt_chars(self.geometry),
                config: opt_chars(self.config),
            },
            pending: self.pending,
            missing: self.missing,
            trailing: self.trailing,
        }
    }
}

fn is_set_exec(st: &Scan, o: Opt) -> (r: bool)
    ensures
        r == is_set(st@.fields, o),
{
    match o {
        Opt::Mode => st.mode.is_some(),
        Opt::Output => st.output.is_some(),
        Opt::Dir => st.dir.is_some(),
        Opt::Name => st.name.is_some(),
        Opt::Geometry => st.geometry.is_some(),
        Opt::Config => st.config.is_some(),
    }
}

/// Records the value `t[from..]` of option `o` and clears the pending option.
fn assign_exec(st: &mut Scan, o: Opt, t: &str, cs: &Vec<char>, from: usize) -> (r: Result<(), CliError>)
    requires
        cs@ == t@,
        from <= t@.len(),
    ensures
        match assign(old(st)@.fields, o, t@.subrange(from as int, t@.len() as int)) {
            Ok(f) => r is Ok && final(st)@ == ScanModel { fields: f, pending: None, ..old(st)@ },
            Err(e) => r == Err::<(), CliError>(e),
        },
{
    let n = cs.len();
    if is_set_exec(st, o) {
        return Err(CliError::DuplicateArgument);
    }
    match o {
        Opt::Mode => {
            if chars_eq(cs, from, n, "full") {
                st.mode = Some(Mode::Full);
            } else if chars_eq(cs, from, n, "window") {
                st.mode = Some(Mode::Window);
            } else if chars_eq(cs, from, n, "region") {
                st.mode = Some(Mode::Region);
            } else {
                return Err(CliError::InvalidValue);
            }
        },
        Opt::Output => {
            if chars_eq(cs, from, n, "file") {
                st.output = Some(Output::File);
            } else if chars_eq(cs, from, n, "clipboard") {
                st.output = Some(Output::Clipboard);
            } else {
                return Err(CliError::InvalidValue);
            }
        },
        Opt::Dir => {
            st.dir = Some(t.substring_char(from, n).to_owned());
        },
        Opt::Name => {
            st.name = Some(t.substring_char(from, n).to_owned());
        },
        Opt::Geometry => {
            st.geometry = Some(t.substring_char(from, n).to_owned());
        },
        Opt::Config => {
            st.config = Some(t.substring_char(from, n).to_owned());
        },
    }
    st.pending = None;
    Ok(())
}

/// The value attached at `from`, if any.
pub open spec fn attached_at(t: Seq<char>, from: Option<usize>) -> Option<Seq<char>> {
    match from {
        Some(k) => Some(t.subrange(k as int, t.len() as int)),
        None => None,
    }
}

fn begin_exec(st: &mut Scan, o: Opt, t: &str, cs: &Vec<char>, from: Option<usize>) -> (r: Result<(), CliError>)
    requires
        cs@ == t@,
        from matches Some(k) ==> k <= t@.len(),
    ensures
        match begin(old(st)@, o, attached_at(t@, from)) {
            Ok(m) => r is Ok && final(st)@ == m,
            Err(e) => r == Err::<(), CliError>(e),
        },
{
    if st.pending.is_some() {
        st.missing = true;
        st.pending = None;
    }
    if is_set_exec(st, o) {
        return Err(CliError::DuplicateArgument);
    }
    match from {
        Some(k) => assign_exec(st, o, t, cs, k),
        None => {
            st.pending = Some(o);
            Ok(())
        },
    }
}

fn long_name_exec(cs: &Vec<char>, start: usize, end: usize) -> (r: Option<Opt>)
    requires
        start <= end <= cs@.len(),
    ensures
        r == long_name(cs@.subrange(start as int, end as int)),
{
    if chars_eq(cs, start, end, "mode") {
        Some(Opt::Mode)
    } else if chars_eq(cs, start, end, "output") {
        Some(Opt::Output)
    } else if chars_eq(cs, start, end, "dir") {
        Some(Opt::Dir)
    } else if chars_eq(cs, start, end, "name") {
        Some(Opt::Name)
    } else if chars_eq(cs, start, end, "geometry") {
        Some(Opt::Geometry)
    } else if chars_eq(cs, start, end, "config") {
        Some(Opt::Config)
    } else {
        None
    }
}

fn short_name_exec(c: char) -> (r: Option<Opt>)
    ensures
        r == short_name(c),
{
    if c == 'm' {
        Some(Opt::Mode)
    } else if c == 'o' {
        Some(Opt::Output)
    } else if c == 'd' {
        Some(Opt::Dir)
    } else if c == 'n' {
        Some(Opt::Name)
    } else if c == 'r' {
        Some(Opt::Geometry)
    } else if c == 'c' {
        Some(Opt::Config)
    } else {
        None
    }
}

fn step_exec(st: &mut Scan, t: &str) -> (r: Result<(), CliError>)
    ensures
        match step(old(st)@, t@) {
            Ok(m) => r is Ok && final(st)@ == m,
            Err(e) => r == Err::<(), CliError>(e),
        },
{
    if st.trailing {
        return Err(CliError::UnexpectedArgument);
    }
    let cs = to_chars(t);
    let n = cs.len();
    if n == 2 && cs[0] == '-' && cs[1] == '-' {
        assert(t@ =~= seq!['-', '-']);
        st.trailing = true;
        return Ok(());
    }
    assert(t@ != seq!['-', '-']);
    if n >= 2 && cs[0] == '-' && cs[1] == '-' {
        let ghost body = t@.subrange(2, n as int);
        assert(cs@.subrange(2, n as int) == body);
        let (name_end, value_from) = match find_char(&cs, 2, n, '=') {
            Some(p) => {
                assert(body.subrange(0, p - 2) =~= cs@.subrange(2, p as int));
                assert(body.subrange(p - 1, body.len() as int) =~= t@.subrange(p + 1, n as int));
                (p, Some(p + 1))
            },
            None => (n, None),
        };
        assert(long_parts(t@).0 == cs@.subrange(2, name_end as int));
        assert(long_parts(t@).1 == attached_at(t@, value_from));
        if chars_eq(&cs, 2, name_end, "help") {
            if value_from.is_some() {
                return Err(CliError::UnexpectedValue);
            } else {
                return Err(CliError::Help);
            }
        }
        return match long_name_exec(&cs, 2, name_end) {
            Some(o) => begin_exec(st, o, t, &cs, value_from),
            None => Err(CliError::UnknownArgument),
        };
    }
    if n >= 2 && cs[0] == '-' {
        let c = cs[1];
        if c == 'h' {
            return Err(CliError::Help);
        }
        let from: Option<usize> = if n == 2 {
            None
        } else if cs[2] == '=' {
            Some(3)
        } else {
            Some(2)
        };
        proof {
            let rest = t@.subrange(2, t@.len() as int);
            if n > 2 {
                assert(rest[0] == cs@[2]);
                assert(rest.subrange(1, rest.len() as int) =~= t@.subrange(3, t@.len() as int));
            }
        }
        assert(short_attached(t@) == attached_at(t@, from));
        return match short_name_exec(c) {
            Some(o) => begin_exec(st, o, t, &cs, from),
            None => Err(CliError::UnknownArgument),
        };
    }
    match st.pending {
        Some(o) => {
            assert(t@.subrange(0, t@.len() as int) =~= t@);
            assign_exec(st, o, t, &cs, 0)
        },
        None => Err(CliError::UnexpectedArgument),
    }
}

impl Args {
    /// Parses a command line, the program name first, as the tool reads it.
    pub fn try_parse_from(args: &[&str]) -> (r: Result<Args, CliError>)
        ensures
            match (r, spec_parse_args(args@.map_values(|s: &str| s@))) {
                (Ok(a), Ok(m)) => a@ == m,
                (Err(e), Err(f)) => e == f,
                _ => false,
            },
    {
        let ghost views = args@.map_values(|s: &str| s@);
        let ghost tokens = if views.len() > 0 {
            views.drop_first()
        } else {
            views
        };
        let mut st = Scan {
            mode: None,
            output: None,
            dir: None,
            name: None,
            geometry: None,
            config: None,
            pending: None,
            missing: false,
            trailing: false,
        };
        let n = args.len();
        let mut i: usize = 1;
        while i < n
            invariant
                1 <= i,
                n == args@.len(),
                views == args@.map_values(|s: &str| s@),
                tokens == (if views.len() > 0 {
                    views.drop_first()
                } else {
                    views
                }),
                n > 0 ==> i <= n,
                n > 0 ==> scan(tokens, (i - 1) as nat) == Ok::<ScanModel, CliError>(st@),
                n == 0 ==> st@ == initial_scan(),
            decreases n - i,
        {
            let ghost before = st@;
            assert(tokens[i - 1] == args@[i as int]@);
            match step_exec(&mut st, args[i]) {
                Ok(()) => {},
                Err(e) => {
                    proof {
                        lemma_scan_stays_failed(tokens, i as nat, tokens.len(), e);
                    }
                    return Err(e);
                },
            }
            i = i + 1;
        }
        assert(scan(tokens, tokens.len()) == Ok::<ScanModel, CliError>(st@));
        if st.pending.is_some() || st.missing {
            return Err(CliError::MissingValue);
        }
        let mode = match st.mode {
            Some(m) => m,
            None => Mode::Full,
        };
        let output = match st.output {
            Some(o) => o,
            None => Output::File,
        };
        Ok(Args { mode, output, dir: st.dir, name: st.name, geometry: st.geometry, config: st.config })
    }
}

} // verus!

verus! {

/// The long name of an option.
pub open spec fn long_option_name(o: Opt) -> Seq<char> {
    match o {
        Opt::Mode => "mode"@,
        Opt::Output => "output"@,
        Opt::Dir => "dir"@,
        Opt::Name => "name"@,
        Opt::Geometry => "geometry"@,
        Opt::Config => "config"@,
    }
}

/// The short letter of an option.
pub open spec fn option_letter(o: Opt) -> char {
    match o {
        Opt::Mode => 'm',
        Opt::Output => 'o',
        Opt::Dir => 'd',
        Opt::Name => 'n',
        Opt::Geometry => 'r',
        Opt::Config => 'c',
    }
}

/// The command line with no options.
pub open spec fn default_args() -> ArgsModel {
    ArgsModel { mode: Mode::Full, output: Output::File, dir: None, name: None, geometry: None, config: None }
}

/// What a command line holding only option `o` with value `v` means.
pub open spec fn single_option(o: Opt, v: Seq<char>) -> Result<ArgsModel, CliError> {
    let d = default_args();
    match o {
        Opt::Mode => if v == "full"@ {
            Ok(d)
        } else if v == "window"@ {
            Ok(ArgsModel { mode: Mode::Window, ..d })
        } else if v == "region"@ {
            Ok(ArgsModel { mode: Mode::Region, ..d })
        } else {
            Err(CliError::InvalidValue)
        },
        Opt::Output => if v == "file"@ {
            Ok(d)
        } else if v == "clipboard"@ {
            Ok(ArgsModel { output: Output::Clipboard, ..d })
        } else {
            Err(CliError::InvalidValue)
        },
        Opt::Dir => Ok(ArgsModel { dir: Some(v), ..d }),
        Opt::Name => Ok(ArgsModel { name: Some(v), ..d }),
        Opt::Geometry => Ok(ArgsModel { geometry: Some(v), ..d }),
        Opt::Config => Ok(ArgsModel { config: Some(v), ..d }),
    }
}

proof fn lemma_literals()
    ensures
        "mode"@ == seq!['m', 'o', 'd', 'e'],
        "output"@ == seq!['o', 'u', 't', 'p', 'u', 't'],
        "dir"@ == seq!['d', 'i', 'r'],
        "name"@ == seq!['n', 'a', 'm', 'e'],
        "geometry"@ == seq!['g', 'e', 'o', 'm', 'e', 't', 'r', 'y'],
        "config"@ == seq!['c', 'o', 'n', 'f', 'i', 'g'],
        "help"@ == seq!['h', 'e', 'l', 'p'],
{
    reveal_strlit("mode");
    reveal_strlit("output");
    reveal_strlit("dir");
    reveal_strlit("name");
    reveal_strlit("geometry");
    reveal_strlit("config");
    reveal_strlit("help");
}

/// The scan state after an option that waits for its value.
pub open spec fn waiting_for(o: Opt) -> ScanModel {
    ScanModel { pending: Some(o), ..initial_scan() }
}

proof fn lemma_long_token_starts(o: Opt)
    ensures
        step(initial_scan(), seq!['-', '-'] + long_option_name(o)) == Ok::<ScanModel, CliError>(
            waiting_for(o),
        ),
{
    lemma_literals();
    let name = long_option_name(o);
    let t = seq!['-', '-'] + name;
    assert(t.subrange(2, t.len() as int) =~= name);
    crate::text::lemma_first_index(name, '=');
    assert(first_index_none(name));
    assert(long_parts(t) == (name, None::<Seq<char>>));
    assert(t.len() > 2);
    assert(t != seq!['-', '-']);
    assert(t[0] == '-' && t[1] == '-');
    assert(name != "help"@) by {
        if name == "help"@ {
            assert(name[0] == "help"@[0]);
        }
    }
    assert(long_name(name) == Some(o)) by {
        if o != Opt::Mode {
            assert(name[0] != 'm' || name.len() != 4);
            if name == "mode"@ {
                assert(name[0] == "mode"@[0]);
            }
        }
        if o != Opt::Output && name == "output"@ {
            assert(name[0] == "output"@[0]);
        }
        if o != Opt::Dir && name == "dir"@ {
            assert(name[0] == "dir"@[0]);
        }
        if o != Opt::Name && name == "name"@ {
            assert(name[0] == "name"@[0]);
        }
        if o != Opt::Geometry && name == "geometry"@ {
            assert(name[0] == "geometry"@[0]);
        }
        if o != Opt::Config && name == "config"@ {
            assert(name[0] == "config"@[0]);
        }
    }
}

spec fn first_index_none(s: Seq<char>) -> bool {
    crate::text::first_index(s, '=') is None
}

proof fn lemma_short_token_starts(o: Opt)
    ensures
        step(initial_scan(), seq!['-', option_letter(o)]) == Ok::<ScanModel, CliError>(waiting_for(o)),
{
    let t = seq!['-', option_letter(o)];
    assert(t.subrange(2, t.len() as int) =~= Seq::<char>::empty());
    assert(t != seq!['-', '-']) by {
        assert(t[1] != '-');
    }
    assert(short_attached(t) is None);
}

proof fn lemma_value_after(o: Opt, v: Seq<char>)
    requires
        !(v.len() >= 2 && v[0] == '-'),
    ensures
        (match step(waiting_for(o), v) {
            Ok(st) => finish(st),
            Err(e) => Err(e),
        }) == single_option(o, v),
{
    assert(v != seq!['-', '-']) by {
        if v == seq!['-', '-'] {
            assert(v[0] == '-');
        }
    }
}

proof fn lemma_two_tokens(p: Seq<char>, t: Seq<char>, v: Seq<char>)
    ensures
        spec_parse_args(seq![p, t, v]) == (match scan(seq![t, v], 2) {
            Ok(st) => finish(st),
            Err(e) => Err(e),
        }),
        scan(seq![t, v], 2) == (match step(initial_scan(), t) {
            Ok(st) => step(st, v),
            Err(e) => Err(e),
        }),
{
    assert(seq![p, t, v].drop_first() =~= seq![t, v]);
    assert(scan(seq![t, v], 0) == Ok::<ScanModel, CliError>(initial_scan()));
    assert(seq![t, v][0] == t && seq![t, v][1] == v);
    assert(scan(seq![t, v], 1) == step(initial_scan(), t));
}

/// Every option has a long name and a short letter, and the two forms mean
/// the same: `--<long name> <value>` parses exactly as `-<letter> <value>`,
/// for every value that does not itself look like an option; and a command
/// line holding only that option sets just that option to the value
/// (`--mode`/`--output` take one of their choices, the others any text).
pub proof fn lemma_long_and_short_forms(o: Opt, p: Seq<char>, v: Seq<char>)
    requires
        !(v.len() >= 2 && v[0] == '-'),
    ensures
        spec_parse_args(seq![p, seq!['-', '-'] + long_option_name(o), v]) == spec_parse_args(
            seq![p, seq!['-', option_letter(o)], v],
        ),
        spec_parse_args(seq![p, seq!['-', option_letter(o)], v]) == single_option(o, v),
{
    let lt = seq!['-', '-'] + long_option_name(o);
    let st = seq!['-', option_letter(o)];
    lemma_long_token_starts(o);
    lemma_short_token_starts(o);
    lemma_two_tokens(p, lt, v);
    lemma_two_tokens(p, st, v);
    lemma_value_after(o, v);
}

} // verus!
