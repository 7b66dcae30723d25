//! The command line: which command and which values the arguments give.

use vstd::prelude::*;

use crate::models::ShowFilter;
use crate::text::{parse_i64, str_to_i64};

verus! {

/// A command of the command line.
#[derive(Debug)]
pub enum Command {
    /// Add a new task (to the top of the list).
    Add { title: String, priority: i64 },
    /// Push a new task (to the bottom of the list).
    Push { title: String, detail: String, priority: i64 },
    /// List tasks (incomplete ones unless told otherwise).
    List { show: ShowFilter },
    /// Show the first task by list order.
    First,
    /// Show and complete the next incomplete task of the current project.
    Next,
    /// Mark a task as done.
    Done { id: i64 },
    /// Mark a task as not done.
    Undo { id: i64 },
    /// Delete a task.
    Delete { id: i64 },
    /// Delete all tasks.
    Clear,
    /// Edit a task's detail in the user's editor.
    Edit { id: i64 },
}

/// The parsed command line.
#[derive(Debug)]
pub struct Cli {
    pub command: Command,
}

/// The value of a command.
pub enum CommandView {
    Add { title: Seq<char>, priority: i64 },
    Push { title: Seq<char>, detail: Seq<char>, priority: i64 },
    List { show: ShowFilter },
    First,
    Next,
    Done { id: i64 },
    Undo { id: i64 },
    Delete { id: i64 },
    Clear,
    Edit { id: i64 },
}

impl View for Command {
    type V = CommandView;

    open spec fn view(&self) -> CommandView {
        match self {
            Command::Add { title, priority } => CommandView::Add { title: title@, priority: *priority },
            Command::Push { title, detail, priority } => CommandView::Push {
                title: title@,
                detail: detail@,
                priority: *priority,
            },
            Command::List { show } => CommandView::List { show: *show },
            Command::First => CommandView::First,
            Command::Next => CommandView::Next,
            Command::Done { id } => CommandView::Done { id: *id },
            Command::Undo { id } => CommandView::Undo { id: *id },
            Command::Delete { id } => CommandView::Delete { id: *id },
            Command::Clear => CommandView::Clear,
            Command::Edit { id } => CommandView::Edit { id: *id },
        }
    }
}

/// Why a command line was not taken.
#[derive(Debug, Clone, Copy, PartialEq, Eq, Structural)]
pub enum CliError {
    /// No command was given.
    MissingSubcommand,
    /// Help was asked for (`help`, `-h` or `--help`).
    Help,
    /// The command's name is not known.
    UnknownSubcommand,
    /// A flag the command does not take, or one argument too many.
    UnexpectedArgument,
    /// An option without its value.
    MissingValue,
    /// An option given twice.
    RepeatedOption,
    /// The command's required argument is missing.
    MissingArgument,
    /// A value that is not a number, or not a known filter.
    InvalidValue,
}

/// The command names.
#[derive(Debug, Clone, Copy, PartialEq, Eq, Structural)]
pub enum Sub {
    Add,
    Push,
    List,
    First,
    Next,
    Done,
    Undo,
    Delete,
    Clear,
    Edit,
}

/// The options that take a value.
#[derive(Debug, Clone, Copy, PartialEq, Eq, Structural)]
pub enum Opt {
    Priority,
    Detail,
    Show,
}

/// The command that a name stands for.
pub open spec fn sub_named(name: Seq<char>) -> Option<Sub> {
    if name == "add"@ {
        Some(Sub::Add)
    } else if name == "push"@ {
        Some(Sub::Push)
    } else if name == "list"@ {
        Some(Sub::List)
    } else if name == "first"@ {
        Some(Sub::First)
    } else if name == "next"@ {
        Some(Sub::Next)
    } else if name == "done"@ {
        Some(Sub::Done)
    } else if name == "undo"@ {
        Some(Sub::Undo)
    } else if name == "delete"@ {
        Some(Sub::Delete)
    } else if name == "clear"@ {
        Some(Sub::Clear)
    } else if name == "edit"@ {
        Some(Sub::Edit)
    } else {
        None
    }
}

/// How many positional arguments a command takes (a title or an id).
pub open spec fn positional_count(sub: Sub) -> nat {
    match sub {
        Sub::Add | Sub::Push | Sub::Done | Sub::Undo | Sub::Delete | Sub::Edit => 1,
        _ => 0,
    }
}

/// Whether a command takes an option.
pub open spec fn takes(sub: Sub, o: Opt) -> bool {
    match sub {
        Sub::Add => o == Opt::Priority,
        Sub::Push => o == Opt::Priority || o == Opt::Detail,
        Sub::List => o == Opt::Show,
        _ => false,
    }
}

/// The option that a long name stands for.
pub open spec fn long_opt(name: Seq<char>) -> Option<Opt> {
    if name == "priority"@ {
        Some(Opt::Priority)
    } else if name == "detail"@ {
        Some(Opt::Detail)
    } else if name == "show"@ {
        Some(Opt::Show)
    } else {
        None
    }
}

/// The option that a short name stands for.
pub open spec fn short_opt(c: char) -> Option<Opt> {
    if c == 'p' {
        Some(Opt::Priority)
    } else if c == 'd' {
        Some(Opt::Detail)
    } else if c == 's' {
        Some(Opt::Show)
    } else {
        None
    }
}

/// A token that reads as a flag: a `-` followed by something. A lone `-` is
/// a value.
pub open spec fn is_flag(t: Seq<char>) -> bool {
    t.len() > 1 && t[0] == '-'
}

/// The first position of `c` in `s`.
pub open spec fn first_index_of(s: Seq<char>, c: char) -> Option<int> {
    if exists|k: int| 0 <= k < s.len() && s[k] == c {
        Some(choose|k: int| 0 <= k < s.len() && s[k] == c && forall|j: int| 0 <= j < k ==> s[j] != c)
    } else {
        None
    }
}

/// What a flag token asks for.
pub enum FlagView {
    /// Help.
    Help,
    /// An option, with the value written in the same token if there is one.
    Known(Opt, Option<Seq<char>>),
    /// A flag that no command has.
    Unknown,
}

/// What a flag token asks for: `--name`, `--name=value`, `-x`, `-xvalue` or
/// `-x=value`.
pub open spec fn flag_of(t: Seq<char>) -> FlagView {
    if t.len() >= 2 && t[0] == '-' && t[1] == '-' {
        let body = t.skip(2);
        let (name, attached) = match first_index_of(body, '=') {
            Some(k) => (body.take(k), Some(body.skip(k + 1))),
            None => (body, None),
        };
        if name == "help"@ {
            FlagView::Help
        } else {
            match long_opt(name) {
                Some(o) => FlagView::Known(o, attached),
                None => FlagView::Unknown,
            }
        }
    } else {
        let c = t[1];
        let rest = t.skip(2);
        let attached = if rest.len() == 0 {
            None
        } else if rest[0] == '=' {
            Some(rest.skip(1))
        } else {
            Some(rest)
        };
        if c == 'h' {
            FlagView::Help
        } else {
            match short_opt(c) {
                Some(o) => FlagView::Known(o, attached),
                None => FlagView::Unknown,
            }
        }
    }
}

/// What the arguments after the command name have given so far.
pub struct Scan {
    pub pos: Seq<Seq<char>>,
    pub priority: Option<Seq<char>>,
    pub detail: Option<Seq<char>>,
    pub show: Option<Seq<char>>,
    /// A `--` was seen: every later token is positional.
    pub raw: bool,
}

/// Nothing given yet.
pub open spec fn empty_scan() -> Scan {
    Scan { pos: Seq::empty(), priority: None, detail: None, show: None, raw: false }
}

/// The value given for an option so far.
pub open spec fn opt_value(st: Scan, o: Opt) -> Option<Seq<char>> {
    match o {
        Opt::Priority => st.priority,
        Opt::Detail => st.detail,
        Opt::Show => st.show,
    }
}

/// The scan with a value for an option.
pub open spec fn set_opt(st: Scan, o: Opt, v: Seq<char>) -> Scan {
    match o {
        Opt::Priority => Scan { priority: Some(v), ..st },
        Opt::Detail => Scan { detail: Some(v), ..st },
        Opt::Show => Scan { show: Some(v), ..st },
    }
}

/// The scan with one more positional argument.
pub open spec fn push_pos(st: Scan, t: Seq<char>) -> Scan {
    Scan { pos: st.pos.push(t), ..st }
}

/// The tokens from position `i` on, read for command `sub`.
pub open spec fn scan(sub: Sub, toks: Seq<Seq<char>>, i: int, st: Scan) -> Result<Scan, CliError>
    decreases toks.len() - i,
{
    if i < 0 || i >= toks.len() {
        Ok(st)
    } else {
        let t = toks[i];
        if st.raw || !is_flag(t) {
            if st.pos.len() >= positional_count(sub) {
                Err(CliError::UnexpectedArgument)
            } else {
                scan(sub, toks, i + 1, push_pos(st, t))
            }
        } else if t == "--"@ {
            scan(sub, toks, i + 1, Scan { raw: true, ..st })
        } else {
            match flag_of(t) {
                FlagView::Help => Err(CliError::Help),
                FlagView::Unknown => Err(CliError::UnexpectedArgument),
                FlagView::Known(o, attached) => {
                    if !takes(sub, o) {
                        Err(CliError::UnexpectedArgument)
                    } else if opt_value(st, o) is Some {
                        Err(CliError::RepeatedOption)
                    } else {
                        match attached {
                            Some(v) => scan(sub, toks, i + 1, set_opt(st, o, v)),
                            None => {
                                if i + 1 < toks.len() && !is_flag(toks[i + 1]) {
                                    scan(sub, toks, i + 2, set_opt(st, o, toks[i + 1]))
                                } else {
                                    Err(CliError::MissingValue)
                                }
                            },
                        }
                    }
                },
            }
        }
    }
}

/// The filter that a value names.
pub open spec fn filter_named(v: Seq<char>) -> Option<ShowFilter> {
    if v == "incomplete"@ {
        Some(ShowFilter::Incomplete)
    } else if v == "completed"@ {
        Some(ShowFilter::Completed)
    } else if v == "all"@ {
        Some(ShowFilter::All)
    } else {
        None
    }
}

/// The priority given, 0 by default.
pub open spec fn priority_of(st: Scan) -> Option<i64> {
    match st.priority {
        None => Some(0),
        Some(v) => parse_i64(v),
    }
}

/// The id given as the positional argument.
pub open spec fn id_command(sub: Sub, st: Scan) -> Result<CommandView, CliError> {
    if st.pos.len() < 1 {
        Err(CliError::MissingArgument)
    } else {
        match parse_i64(st.pos[0]) {
            None => Err(CliError::InvalidValue),
            Some(id) => Ok(
                match sub {
                    Sub::Done => CommandView::Done { id: id },
                    Sub::Undo => CommandView::Undo { id: id },
                    Sub::Delete => CommandView::Delete { id: id },
                    _ => CommandView::Edit { id: id },
                },
            ),
        }
    }
}

/// The command that a finished scan gives.
pub open spec fn finish(sub: Sub, st: Scan) -> Result<CommandView, CliError> {
    match sub {
        Sub::Add => {
            if st.pos.len() < 1 {
                Err(CliError::MissingArgument)
            } else {
                match priority_of(st) {
                    Some(p) => Ok(CommandView::Add { title: st.pos[0], priority: p }),
                    None => Err(CliError::InvalidValue),
                }
            }
        },
        Sub::Push => {
            if st.pos.len() < 1 {
                Err(CliError::MissingArgument)
            } else {
                match priority_of(st) {
                    Some(p) => Ok(
                        CommandView::Push {
                            title: st.pos[0],
                            detail: match st.detail {
                                Some(d) => d,
                                None => Seq::empty(),
                            },
                            priority: p,
                        },
                    ),
                    None => Err(CliError::InvalidValue),
                }
            }
        },
        Sub::List => {
            match st.show {
                None => Ok(CommandView::List { show: ShowFilter::Incomplete }),
                Some(v) => match filter_named(v) {
                    Some(f) => Ok(CommandView::List { show: f }),
                    None => Err(CliError::InvalidValue),
                },
            }
        },
        Sub::First => Ok(CommandView::First),
        Sub::Next => Ok(CommandView::Next),
        Sub::Clear => Ok(CommandView::Clear),
        _ => id_command(sub, st),
    }
}

/// The command that a whole command line gives; its first token is the
/// program's name.
pub open spec fn parse_command_line(toks: Seq<Seq<char>>) -> Result<CommandView, CliError> {
    if toks.len() < 2 {
        Err(CliError::MissingSubcommand)
    } else if toks[1] == "-h"@ || toks[1] == "--help"@ || toks[1] == "help"@ {
        Err(CliError::Help)
    } else {
        match sub_named(toks[1]) {
            None => if is_flag(toks[1]) {
                Err(CliError::UnexpectedArgument)
            } else {
                Err(CliError::UnknownSubcommand)
            },
            Some(sub) => match scan(sub, toks, 2, empty_scan()) {
                Ok(st) => finish(sub, st),
                Err(e) => Err(e),
            },
        }
    }
}

/// The views of the tokens.
pub open spec fn token_views(args: Seq<&str>) -> Seq<Seq<char>> {
    args.map_values(|a: &str| a@)
}

/// The view of a parse result.
pub open spec fn cli_result(r: Result<Cli, CliError>) -> Result<CommandView, CliError> {
    match r {
        Ok(cli) => Ok(cli.command@),
        Err(e) => Err(e),
    }
}

/// Whether two strings hold the same characters.
pub fn same_text(a: &str, b: &str) -> (r: bool)
    ensures
        r == (a@ == b@),
{
    let n = a.unicode_len();
    let m = b.unicode_len();
    if n != m {
        return false;
    }
    let mut k: usize = 0;
    while k < n
        invariant
            n == a@.len(),
            m == b@.len(),
            n == m,
            k <= n,
            forall|j: int| 0 <= j < k ==> a@[j] == b@[j],
        decreases n - k,
    {
        if a.get_char(k) != b.get_char(k) {
            return false;
        }
        k = k + 1;
    }
    assert(a@ =~= b@);
    true
}

/// The command that a name stands for.
fn sub_of(name: &str) -> (r: Option<Sub>)
    ensures
        r == sub_named(name@),
{
    if same_text(name, "add") {
        Some(Sub::Add)
    } else if same_text(name, "push") {
        Some(Sub::Push)
    } else if same_text(name, "list") {
        Some(Sub::List)
    } else if same_text(name, "first") {
        Some(Sub::First)
    } else if same_text(name, "next") {
        Some(Sub::Next)
    } else if same_text(name, "done") {
        Some(Sub::Done)
    } else if same_text(name, "undo") {
        Some(Sub::Undo)
    } else if same_text(name, "delete") {
        Some(Sub::Delete)
    } else if same_text(name, "clear") {
        Some(Sub::Clear)
    } else if same_text(name, "edit") {
        Some(Sub::Edit)
    } else {
        None
    }
}

/// The filter that a value names.
fn filter_of(v: &str) -> (r: Option<ShowFilter>)
    ensures
        r == filter_named(v@),
        v@ == "incomplete"@ ==> r == Some(ShowFilter::Incomplete),
        v@ == "completed"@ ==> r == Some(ShowFilter::Completed),
        v@ == "all"@ ==> r == Some(ShowFilter::All),
        r is Some ==> v@ == "incomplete"@ || v@ == "completed"@ || v@ == "all"@,
{
    proof { law_filter_names(v@); }
    if same_text(v, "incomplete") {
        Some(ShowFilter::Incomplete)
    } else if same_text(v, "completed") {
        Some(ShowFilter::Completed)
    } else if same_text(v, "all") {
        Some(ShowFilter::All)
    } else {
        None
    }
}

/// The first position of `c` in `s`.
fn find_char(s: &str, c: char) -> (r: Option<usize>)
    ensures
        match r {
            Some(k) => first_index_of(s@, c) == Some(k as int) && k < s@.len(),
            None => first_index_of(s@, c) is None,
        },
{
    let n = s.unicode_len();
    let mut k: usize = 0;
    while k < n
        invariant
            n == s@.len(),
            k <= n,
            forall|j: int| 0 <= j < k ==> s@[j] != c,
        decreases n - k,
    {
        if s.get_char(k) == c {
            proof {
                let w = choose|w: int| 0 <= w < s@.len() && s@[w] == c && forall|j: int| 0 <= j < w ==> s@[j] != c;
                assert(0 <= k < s@.len() && s@[k as int] == c && forall|j: int| 0 <= j < k ==> s@[j] != c);
                if w < k {
                    assert(s@[w] != c);
                } else if w > k {
                    assert(s@[k as int] != c);
                }
            }
            return Some(k);
        }
        k = k + 1;
    }
    None
}

/// What a flag token asks for.
pub enum Flag {
    Help,
    Known(Opt, Option<String>),
    Unknown,
}

/// The view of an optional string.
pub open spec fn opt_text(o: Option<String>) -> Option<Seq<char>> {
    match o {
        Some(s) => Some(s@),
        None => None,
    }
}

impl View for Flag {
    type V = FlagView;

    open spec fn view(&self) -> FlagView {
        match self {
            Flag::Help => FlagView::Help,
            Flag::Known(o, v) => FlagView::Known(*o, opt_text(*v)),
            Flag::Unknown => FlagView::Unknown,
        }
    }
}

/// What a flag token asks for.
fn classify_flag(t: &str) -> (r: Flag)
    requires
        is_flag(t@),
    ensures
        r@ == flag_of(t@),
{
    let n = t.unicode_len();
    if n >= 2 && t.get_char(0) == '-' && t.get_char(1) == '-' {
        let body = t.substring_char(2, n);
        assert(body@ == t@.skip(2));
        let m = body.unicode_len();
        let (name, attached): (&str, Option<String>) = match find_char(body, '=') {
            Some(k) => {
                let name = body.substring_char(0, k);
                let value = body.substring_char(k + 1, m);
                assert(name@ == body@.take(k as int));
                assert(value@ == body@.skip(k + 1));
                (name, Some(value.to_owned()))
            },
            None => (body, None),
        };
        if same_text(name, "help") {
            Flag::Help
        } else if same_text(name, "priority") {
            Flag::Known(Opt::Priority, attached)
        } else if same_text(name, "detail") {
            Flag::Known(Opt::Detail, attached)
        } else if same_text(name, "show") {
            Flag::Known(Opt::Show, attached)
        } else {
            Flag::Unknown
        }
    } else {
        let c = t.get_char(1);
        let rest = t.substring_char(2, n);
        assert(rest@ == t@.skip(2));
        let attached: Option<String> = if rest.unicode_len() == 0 {
            None
        } else if rest.get_char(0) == '=' {
            let v = rest.substring_char(1, rest.unicode_len());
            assert(v@ == rest@.skip(1));
            Some(v.to_owned())
        } else {
            Some(rest.to_owned())
        };
        if c == 'h' {
            Flag::Help
        } else if c == 'p' {
            Flag::Known(Opt::Priority, attached)
        } else if c == 'd' {
            Flag::Known(Opt::Detail, attached)
        } else if c == 's' {
            Flag::Known(Opt::Show, attached)
        } else {
            Flag::Unknown
        }
    }
}

/// What the arguments after the command name have given so far.
struct ScanState {
    pos: Vec<String>,
    priority: Option<String>,
    detail: Option<String>,
    show: Option<String>,
    raw: bool,
}

/// The views of a sequence of strings.
pub open spec fn text_views(v: Seq<String>) -> Seq<Seq<char>> {
    v.map_values(|s: String| s@)
}

impl View for ScanState {
    type V = Scan;

    closed spec fn view(&self) -> Scan {
        Scan {
            pos: text_views(self.pos@),
            priority: opt_text(self.priority),
            detail: opt_text(self.detail),
            show: opt_text(self.show),
            raw: self.raw,
        }
    }
}

impl ScanState {
    fn has(&self, o: Opt) -> (r: bool)
        ensures
            r == opt_value(self@, o) is Some,
    {
        match o {
            Opt::Priority => self.priority.is_some(),
            Opt::Detail => self.detail.is_some(),
            Opt::Show => self.show.is_some(),
        }
    }

    fn set(&mut self, o: Opt, v: String)
        ensures
            final(self)@ == set_opt(old(self)@, o, v@),
    {
        match o {
            Opt::Priority => self.priority = Some(v),
            Opt::Detail => self.detail = Some(v),
            Opt::Show => self.show = Some(v),
        }
    }

    fn push(&mut self, t: &str)
        ensures
            final(self)@ == push_pos(old(self)@, t@),
    {
        let ghost before = self@;
        self.pos.push(t.to_owned());
        assert(self@.pos =~= before.pos.push(t@));
    }
}

/// The priority given, 0 by default.
fn priority_given(p: &Option<String>) -> (r: Option<i64>)
    ensures
        r == (match opt_text(*p) {
            None => Some(0i64),
            Some(v) => parse_i64(v),
        }),
{
    match p {
        None => Some(0),
        Some(v) => str_to_i64(v.as_str()),
    }
}

/// The command that a finished scan gives.
fn finish_scan(sub: Sub, st: ScanState) -> (r: Result<Command, CliError>)
    ensures
        match r {
            Ok(c) => finish(sub, st@) == Ok::<CommandView, CliError>(c@),
            Err(e) => finish(sub, st@) == Err::<CommandView, CliError>(e),
        },
{
    let ghost v = st@;
    match sub {
        Sub::Add | Sub::Push => {
            if st.pos.len() < 1 {
                return Err(CliError::MissingArgument);
            }
            let priority = match priority_given(&st.priority) {
                Some(p) => p,
                None => return Err(CliError::InvalidValue),
            };
            let title = st.pos[0].clone();
            assert(title@ == v.pos[0]);
            match sub {
                Sub::Add => Ok(Command::Add { title: title, priority: priority }),
                _ => {
                    let detail = match st.detail {
                        Some(d) => d,
                        None => String::new(),
                    };
                    Ok(Command::Push { title: title, detail: detail, priority: priority })
                },
            }
        },
        Sub::List => {
            match st.show {
                None => Ok(Command::List { show: ShowFilter::Incomplete }),
                Some(s) => match filter_of(s.as_str()) {
                    Some(f) => Ok(Command::List { show: f }),
                    None => Err(CliError::InvalidValue),
                },
            }
        },
        Sub::First => Ok(Command::First),
        Sub::Next => Ok(Command::Next),
        Sub::Clear => Ok(Command::Clear),
        _ => {
            if st.pos.len() < 1 {
                return Err(CliError::MissingArgument);
            }
            assert(st.pos@[0]@ == v.pos[0]);
            match str_to_i64(st.pos[0].as_str()) {
                None => Err(CliError::InvalidValue),
                Some(id) => Ok(
                    match sub {
                        Sub::Done => Command::Done { id: id },
                        Sub::Undo => Command::Undo { id: id },
                        Sub::Delete => Command::Delete { id: id },
                        _ => Command::Edit { id: id },
                    },
                ),
            }
        },
    }
}

impl Cli {
    /// Reads a command line whose first token is the program's name:
    /// `add <TITLE> [-p|--priority N]`, `push <TITLE> [-d|--detail D]
    /// [-p|--priority N]`, `list [-s|--show incomplete|completed|all]`,
    /// `first`, `next`, `done <ID>`, `undo <ID>`, `delete <ID>`, `clear`,
    /// `edit <ID>`. Options take their value in the same token
    /// (`--show=all`, `-sall`, `-s=all`) or in the next one; `--` ends the
    /// options; `help`, `-h` and `--help` ask for help.
    pub fn try_parse_from(args: &[&str]) -> (r: Result<Cli, CliError>)
        ensures
            cli_result(r) == parse_command_line(token_views(args@)),
    {
        let ghost toks = token_views(args@);
        let n = args.len();
        if n < 2 {
            return Err(CliError::MissingSubcommand);
        }
        let name = args[1];
        assert(toks[1] == name@);
        if same_text(name, "-h") || same_text(name, "--help") || same_text(name, "help") {
            return Err(CliError::Help);
        }
        let sub = match sub_of(name) {
            Some(sub) => sub,
            None => {
                if name.unicode_len() > 1 && name.get_char(0) == '-' {
                    return Err(CliError::UnexpectedArgument);
                }
                return Err(CliError::UnknownSubcommand);
            },
        };
        let mut st = ScanState { pos: Vec::new(), priority: None, detail: None, show: None, raw: false };
        assert(st@.pos =~= Seq::<Seq<char>>::empty());
        assert(st@ == empty_scan());
        let mut i: usize = 2;
        while i < n
            invariant
                n == args@.len(),
                toks == token_views(args@),
                2 <= i <= n + 1,
                n >= 2,
                toks.len() == n,
                !(toks[1] == "-h"@ || toks[1] == "--help"@ || toks[1] == "help"@),
                sub_named(toks[1]) == Some(sub),
                scan(sub, toks, i as int, st@) == scan(sub, toks, 2, empty_scan()),
            decreases n + 1 - i,
        {
            let t = args[i];
            assert(toks[i as int] == t@);
            let flag = t.unicode_len() > 1 && t.get_char(0) == '-';
            if st.raw || !flag {
                if st.pos.len() >= positional_count_of(sub) {
                    return Err(CliError::UnexpectedArgument);
                }
                st.push(t);
                i = i + 1;
            } else if same_text(t, "--") {
                let ghost before = st@;
                st.raw = true;
                assert(st@ == (Scan { raw: true, ..before }));
                i = i + 1;
            } else {
                match classify_flag(t) {
                    Flag::Help => return Err(CliError::Help),
                    Flag::Unknown => return Err(CliError::UnexpectedArgument),
                    Flag::Known(o, attached) => {
                        if !takes_opt(sub, o) {
                            return Err(CliError::UnexpectedArgument);
                        }
                        if st.has(o) {
                            return Err(CliError::RepeatedOption);
                        }
                        match attached {
                            Some(v) => {
                                st.set(o, v);
                                i = i + 1;
                            },
                            None => {
                                if i + 1 < n {
                                    let next = args[i + 1];
                                    assert(toks[i + 1] == next@);
                                    if !(next.unicode_len() > 1 && next.get_char(0) == '-') {
                                        st.set(o, next.to_owned());
                                        i = i + 2;
                                    } else {
                                        return Err(CliError::MissingValue);
                                    }
                                } else {
                                    return Err(CliError::MissingValue);
                                }
                            },
                        }
                    },
                }
            }
        }
        match finish_scan(sub, st) {
            Ok(command) => Ok(Cli { command: command }),
            Err(e) => Err(e),
        }
    }
}

/// How many positional arguments a command takes.
fn positional_count_of(sub: Sub) -> (r: usize)
    ensures
        r == positional_count(sub),
{
    match sub {
        Sub::Add | Sub::Push | Sub::Done | Sub::Undo | Sub::Delete | Sub::Edit => 1,
        _ => 0,
    }
}

/// Whether a command takes an option.
fn takes_opt(sub: Sub, o: Opt) -> (r: bool)
    ensures
        r == takes(sub, o),
{
    match sub {
        Sub::Add => o == Opt::Priority,
        Sub::Push => o == Opt::Priority || o == Opt::Detail,
        Sub::List => o == Opt::Show,
        _ => false,
    }
}

/// The filter names: `incomplete`, `completed` and `all` name the filters
/// of the same name, and no other value names a filter.
pub proof fn law_filter_names(v: Seq<char>)
    ensures
        filter_named("incomplete"@) == Some(ShowFilter::Incomplete),
        filter_named("completed"@) == Some(ShowFilter::Completed),
        filter_named("all"@) == Some(ShowFilter::All),
        filter_named(v) is Some ==> v == "incomplete"@ || v == "completed"@ || v == "all"@,
{
    reveal_strlit("incomplete");
    reveal_strlit("completed");
    reveal_strlit("all");
    assert("completed"@ != "incomplete"@) by {
        assert("completed"@[0] != "incomplete"@[0]);
    }
    assert("all"@ != "incomplete"@) by {
        assert("all"@.len() != "incomplete"@.len());
    }
    assert("all"@ != "completed"@) by {
        assert("all"@.len() != "completed"@.len());
    }
}

/// `list` without `--show` lists the incomplete tasks, and `list --show
/// incomplete` asks for the same; `--show completed` and `--show all` ask
/// for the completed tasks and for all of them.
pub proof fn law_list_show_parses(program: Seq<char>)
    ensures
        parse_command_line(seq![program, "list"@]) == Ok::<CommandView, CliError>(
            CommandView::List { show: ShowFilter::Incomplete },
        ),
        parse_command_line(seq![program, "list"@, "--show"@, "incomplete"@]) == Ok::<CommandView, CliError>(
            CommandView::List { show: ShowFilter::Incomplete },
        ),
        parse_command_line(seq![program, "list"@, "--show"@, "completed"@]) == Ok::<CommandView, CliError>(
            CommandView::List { show: ShowFilter::Completed },
        ),
        parse_command_line(seq![program, "list"@, "--show"@, "all"@]) == Ok::<CommandView, CliError>(
            CommandView::List { show: ShowFilter::All },
        ),
{
    reveal_strlit("list");
    reveal_strlit("-h");
    reveal_strlit("--help");
    reveal_strlit("help");
    reveal_strlit("add");
    reveal_strlit("push");
    reveal_strlit("--show");
    reveal_strlit("show");
    reveal_strlit("--");
    law_filter_names(Seq::empty());
    assert(sub_named("list"@) == Some(Sub::List)) by {
        assert("list"@ != "add"@) by { assert("list"@[0] != "add"@[0]); }
        assert("list"@ != "push"@) by { assert("list"@[0] != "push"@[0]); }
    }
    assert("list"@ != "-h"@ && "list"@ != "--help"@ && "list"@ != "help"@) by {
        assert("list"@[0] != "-h"@[0]);
        assert("list"@[0] != "--help"@[0]);
        assert("list"@[0] != "help"@[0]);
    }
    let t = "--show"@;
    let body = t.skip(2);
    assert(body =~= "show"@);
    assert(first_index_of(body, '=') is None) by {
        assert(forall|k: int| 0 <= k < body.len() ==> body[k] != '=');
    }
    assert(t != "--"@) by { assert(t.len() != "--"@.len()); }
    assert(is_flag(t));
    assert("show"@ != "help"@) by { assert("show"@[0] != "help"@[0]); }
    assert("show"@ != "priority"@) by { reveal_strlit("priority"); assert("show"@[0] != "priority"@[0]); }
    assert("show"@ != "detail"@) by { reveal_strlit("detail"); assert("show"@[0] != "detail"@[0]); }
    assert(flag_of(t) == FlagView::Known(Opt::Show, None));
    reveal_strlit("incomplete");
    reveal_strlit("completed");
    reveal_strlit("all");
    assert(!is_flag("incomplete"@) && !is_flag("completed"@) && !is_flag("all"@));
    let e = empty_scan();
    let toks0 = seq![program, "list"@];
    assert(scan(Sub::List, toks0, 2, e) == Ok::<Scan, CliError>(e));
    let names = seq!["incomplete"@, "completed"@, "all"@];
    assert forall|k: int| 0 <= k < 3 implies ({
        let toks = seq![program, "list"@, "--show"@, #[trigger] names[k]];
        scan(Sub::List, toks, 2, e) == Ok::<Scan, CliError>(set_opt(e, Opt::Show, names[k]))
    }) by {
        let toks = seq![program, "list"@, "--show"@, names[k]];
        assert(toks[2] == t);
        assert(!is_flag(toks[3]));
        assert(scan(Sub::List, toks, 4, set_opt(e, Opt::Show, toks[3])) == Ok::<Scan, CliError>(set_opt(e, Opt::Show, toks[3])));
    }
    assert(names[0] == "incomplete"@ && names[1] == "completed"@ && names[2] == "all"@);
}

} // verus!
