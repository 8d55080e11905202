//! The command line of the recorder.
//!
//! The arguments are read from left to right. An option that takes a value
//! takes the argument after it, whatever that is. An option given twice
//! counts the second time, except `--plot`, of which every use adds a plot.
//! An argument that is no option is set aside as unknown and does no harm.

use crate::text::str_eq;
use vstd::prelude::*;
use vstd::string::*;

verus! {

/// Where the frames come from.
#[derive(Clone, Copy, Debug, PartialEq, Eq, Structural)]
pub enum CanDataInput {
    /// A recorded text log, replayed line by line.
    File,
    /// A live bus interface.
    Socket,
    /// Text lines on standard input.
    Stdin,
    /// A relay that streams binary records.
    Remote,
}

impl Default for CanDataInput {
    fn default() -> (input: CanDataInput)
        ensures
            input == CanDataInput::File,
    {
        CanDataInput::File
    }
}

/// The options of the command line.
#[derive(Clone, Copy, Debug, PartialEq, Eq, Structural)]
pub enum Flag {
    /// `--dbc`, `-d`: the bus description file.
    Dbc,
    /// `--input`, `-i`: the log file, interface or relay address.
    Input,
    /// `--candump`, `-f`: frames come from a log file.
    Candump,
    /// `--socket`, `-s`: frames come from a live interface.
    Socket,
    /// `--stdin`, `-t`: frames come from standard input.
    Stdin,
    /// `--remote`, `-r`: frames come from a relay.
    Remote,
    /// `--cache-ms`, `-c`: the window width in milliseconds.
    CacheMs,
    /// `--output`, `-o`: the file to write the table to.
    Output,
    /// `--plot`, `-p`: signals to plot together, separated by commas.
    Plot,
}

/// Why the command line cannot be used.
#[derive(Clone, Copy, Debug, PartialEq, Eq, Structural)]
pub enum ArgError {
    /// The option at place `at` is the last argument, but needs a value
    /// after it.
    MissingValue { flag: Flag, at: usize },
}

/// What the command line asks for.
#[derive(Debug, PartialEq, Eq)]
pub struct Args {
    pub dbcfile: String,
    pub input: String,
    pub output: String,
    pub candatainput: CanDataInput,
    /// The window width as it was written; empty if none was given.
    pub cache_ms: String,
    /// Every signal named in any plot, in the order given.
    pub aux_outputs: Vec<String>,
    /// The signals of each plot.
    pub plots: Vec<Vec<String>>,
    /// Whether a table is to be written.
    pub en_ipm: bool,
    /// Whether anything is to be plotted.
    pub en_aux: bool,
    /// The arguments that are no option, in the order given.
    pub unknown: Vec<String>,
}

impl Default for Args {
    /// What an empty command line asks for.
    fn default() -> (args: Args)
        ensures
            args@ == no_args(),
    {
        let args = Args {
            dbcfile: String::new(),
            input: String::new(),
            output: String::new(),
            candatainput: CanDataInput::File,
            cache_ms: String::new(),
            aux_outputs: Vec::new(),
            plots: Vec::new(),
            en_ipm: false,
            en_aux: false,
            unknown: Vec::new(),
        };
        assert(args@ =~~= no_args());
        args
    }
}

/// What the command line asks for, as plain data.
#[verifier::ext_equal]
pub ghost struct ArgsSpec {
    pub dbcfile: Seq<char>,
    pub input: Seq<char>,
    pub output: Seq<char>,
    pub candatainput: CanDataInput,
    pub cache_ms: Seq<char>,
    pub aux_outputs: Seq<Seq<char>>,
    pub plots: Seq<Seq<Seq<char>>>,
    pub en_ipm: bool,
    pub en_aux: bool,
    pub unknown: Seq<Seq<char>>,
}

/// A list of strings as plain data.
pub open spec fn texts(list: Seq<String>) -> Seq<Seq<char>> {
    Seq::new(list.len(), |i: int| list[i]@)
}

/// A list of lists of strings as plain data.
pub open spec fn groups(lists: Seq<Vec<String>>) -> Seq<Seq<Seq<char>>> {
    Seq::new(lists.len(), |i: int| texts(lists[i]@))
}

impl View for Args {
    type V = ArgsSpec;

    open spec fn view(&self) -> ArgsSpec {
        ArgsSpec {
            dbcfile: self.dbcfile@,
            input: self.input@,
            output: self.output@,
            candatainput: self.candatainput,
            cache_ms: self.cache_ms@,
            aux_outputs: texts(self.aux_outputs@),
            plots: groups(self.plots@),
            en_ipm: self.en_ipm,
            en_aux: self.en_aux,
            unknown: texts(self.unknown@),
        }
    }
}

/// What an empty command line asks for: frames from a log file, nothing
/// written, nothing plotted.
pub open spec fn no_args() -> ArgsSpec {
    ArgsSpec {
        dbcfile: Seq::empty(),
        input: Seq::empty(),
        output: Seq::empty(),
        candatainput: CanDataInput::File,
        cache_ms: Seq::empty(),
        aux_outputs: Seq::empty(),
        plots: Seq::empty(),
        en_ipm: false,
        en_aux: false,
        unknown: Seq::empty(),
    }
}

/// The option that `arg` spells, in its long or its short form.
pub open spec fn spec_flag(arg: Seq<char>) -> Option<Flag> {
    if arg == "--dbc"@ || arg == "-d"@ {
        Some(Flag::Dbc)
    } else if arg == "--input"@ || arg == "-i"@ {
        Some(Flag::Input)
    } else if arg == "--candump"@ || arg == "-f"@ {
        Some(Flag::Candump)
    } else if arg == "--socket"@ || arg == "-s"@ {
        Some(Flag::Socket)
    } else if arg == "--stdin"@ || arg == "-t"@ {
        Some(Flag::Stdin)
    } else if arg == "--remote"@ || arg == "-r"@ {
        Some(Flag::Remote)
    } else if arg == "--cache-ms"@ || arg == "-c"@ {
        Some(Flag::CacheMs)
    } else if arg == "--output"@ || arg == "-o"@ {
        Some(Flag::Output)
    } else if arg == "--plot"@ || arg == "-p"@ {
        Some(Flag::Plot)
    } else {
        None
    }
}

impl Flag {
    /// Whether the option takes the argument after it as its value.
    pub open spec fn takes_value(self) -> bool {
        match self {
            Flag::Dbc | Flag::Input | Flag::CacheMs | Flag::Output | Flag::Plot => true,
            Flag::Candump | Flag::Socket | Flag::Stdin | Flag::Remote => false,
        }
    }
}

/// The first position at or after `i` that holds `sep`; the length of `s` if
/// there is none.
pub open spec fn find_char(s: Seq<char>, sep: char, i: int) -> int
    decreases s.len() - i,
{
    if 0 <= i < s.len() && s[i] != sep {
        find_char(s, sep, i + 1)
    } else {
        i
    }
}

/// The pieces of `s` between the occurrences of `sep`, from position `from`
/// on. There is always at least one piece; it may be empty.
pub open spec fn spec_split(s: Seq<char>, sep: char, from: int) -> Seq<Seq<char>>
    decreases s.len() - from,
{
    let at = find_char(s, sep, from);
    if 0 <= from <= at < s.len() {
        seq![s.subrange(from, at)] + spec_split(s, sep, at + 1)
    } else if 0 <= from <= s.len() {
        seq![s.subrange(from, s.len() as int)]
    } else {
        seq![Seq::empty()]
    }
}

/// The pieces put together again, with `sep` between one and the next.
pub open spec fn spec_join(pieces: Seq<Seq<char>>, sep: char) -> Seq<char>
    decreases pieces.len(),
{
    if pieces.len() == 0 {
        Seq::empty()
    } else if pieces.len() == 1 {
        pieces[0]
    } else {
        pieces[0] + seq![sep] + spec_join(pieces.drop_first(), sep)
    }
}

/// Cutting loses nothing and leaves no separator behind: the pieces hold no
/// `sep`, and put together again with `sep` between them they are the text
/// that was cut.
pub proof fn lemma_split_joins(s: Seq<char>, sep: char, from: int)
    requires
        0 <= from <= s.len(),
    ensures
        spec_split(s, sep, from).len() >= 1,
        forall|k: int, j: int|
            0 <= k < spec_split(s, sep, from).len() && 0 <= j < spec_split(s, sep, from)[k].len()
                ==> #[trigger] spec_split(s, sep, from)[k][j] != sep,
        spec_join(spec_split(s, sep, from), sep) == s.subrange(from, s.len() as int),
    decreases s.len() - from,
{
    let at = find_char(s, sep, from);
    lemma_find_char(s, sep, from);
    if at < s.len() {
        lemma_split_joins(s, sep, at + 1);
        let head = s.subrange(from, at);
        let rest = spec_split(s, sep, at + 1);
        let all = spec_split(s, sep, from);
        assert(all == seq![head] + rest);
        assert(all.drop_first() =~= rest);
        assert(all[0] == head);
        assert(head + seq![sep] + s.subrange(at + 1, s.len() as int) =~= s.subrange(
            from,
            s.len() as int,
        ));
        assert forall|k: int, j: int| 0 <= k < all.len() && 0 <= j < all[k].len() implies #[trigger] all[k][j]
            != sep by {
            if k > 0 {
                assert(all[k] == rest[k - 1]);
            }
        }
    }
}

proof fn lemma_find_char(s: Seq<char>, sep: char, i: int)
    requires
        0 <= i <= s.len(),
    ensures
        i <= find_char(s, sep, i) <= s.len(),
        forall|k: int| i <= k < find_char(s, sep, i) ==> #[trigger] s[k] != sep,
        find_char(s, sep, i) < s.len() ==> s[find_char(s, sep, i)] == sep,
    decreases s.len() - i,
{
    if i < s.len() && s[i] != sep {
        lemma_find_char(s, sep, i + 1);
    }
}

/// The options so far with one more taken in. `value` counts only for an
/// option that takes a value.
pub open spec fn spec_apply(args: ArgsSpec, flag: Flag, value: Seq<char>) -> ArgsSpec {
    match flag {
        Flag::Dbc => ArgsSpec { dbcfile: value, ..args },
        Flag::Input => ArgsSpec { input: value, ..args },
        Flag::Candump => ArgsSpec { candatainput: CanDataInput::File, ..args },
        Flag::Socket => ArgsSpec { candatainput: CanDataInput::Socket, ..args },
        Flag::Stdin => ArgsSpec { candatainput: CanDataInput::Stdin, ..args },
        Flag::Remote => ArgsSpec { candatainput: CanDataInput::Remote, ..args },
        Flag::CacheMs => ArgsSpec { cache_ms: value, ..args },
        Flag::Output => ArgsSpec { output: value, en_ipm: true, ..args },
        Flag::Plot => ArgsSpec {
            aux_outputs: args.aux_outputs + spec_split(value, ',', 0),
            plots: args.plots.push(spec_split(value, ',', 0)),
            en_aux: true,
            ..args
        },
    }
}

/// What the arguments from place `from` on make of the options read before
/// them.
pub open spec fn spec_process(argv: Seq<Seq<char>>, from: int, args: ArgsSpec) -> Result<
    ArgsSpec,
    ArgError,
>
    decreases argv.len() - from,
{
    if from < 0 || from >= argv.len() {
        Ok(args)
    } else {
        match spec_flag(argv[from]) {
            None => spec_process(
                argv,
                from + 1,
                ArgsSpec { unknown: args.unknown.push(argv[from]), ..args },
            ),
            Some(flag) => if !flag.takes_value() {
                spec_process(argv, from + 1, spec_apply(args, flag, Seq::empty()))
            } else if from + 1 < argv.len() {
                spec_process(argv, from + 2, spec_apply(args, flag, argv[from + 1]))
            } else {
                Err(ArgError::MissingValue { flag: flag, at: from as usize })
            },
        }
    }
}

/// Reads the option that `arg` spells.
pub fn flag_of(arg: &str) -> (flag: Option<Flag>)
    ensures
        flag == spec_flag(arg@),
{
    if str_eq(arg, "--dbc") || str_eq(arg, "-d") {
        Some(Flag::Dbc)
    } else if str_eq(arg, "--input") || str_eq(arg, "-i") {
        Some(Flag::Input)
    } else if str_eq(arg, "--candump") || str_eq(arg, "-f") {
        Some(Flag::Candump)
    } else if str_eq(arg, "--socket") || str_eq(arg, "-s") {
        Some(Flag::Socket)
    } else if str_eq(arg, "--stdin") || str_eq(arg, "-t") {
        Some(Flag::Stdin)
    } else if str_eq(arg, "--remote") || str_eq(arg, "-r") {
        Some(Flag::Remote)
    } else if str_eq(arg, "--cache-ms") || str_eq(arg, "-c") {
        Some(Flag::CacheMs)
    } else if str_eq(arg, "--output") || str_eq(arg, "-o") {
        Some(Flag::Output)
    } else if str_eq(arg, "--plot") || str_eq(arg, "-p") {
        Some(Flag::Plot)
    } else {
        None
    }
}

/// Cuts `s` at every `sep`.
pub fn split(s: &str, sep: char) -> (pieces: Vec<String>)
    ensures
        texts(pieces@) == spec_split(s@, sep, 0),
{
    let len = s.unicode_len();
    let mut pieces: Vec<String> = Vec::new();
    let mut start: usize = 0;
    let mut i: usize = 0;
    while i < len
        invariant
            len == s@.len(),
            start <= i <= len,
            find_char(s@, sep, start as int) == find_char(s@, sep, i as int),
            spec_split(s@, sep, 0) == texts(pieces@) + spec_split(s@, sep, start as int),
        decreases len - i,
    {
        if s.get_char(i) == sep {
            let piece = s.substring_char(start, i).to_owned();
            proof {
                let done = texts(pieces@);
                let more = texts(pieces@.push(piece));
                assert(more =~= done + seq![s@.subrange(start as int, i as int)]);
                assert(spec_split(s@, sep, start as int) =~= seq![
                    s@.subrange(start as int, i as int),
                ] + spec_split(s@, sep, i + 1));
                assert(done + (seq![s@.subrange(start as int, i as int)] + spec_split(
                    s@,
                    sep,
                    i + 1,
                )) =~= more + spec_split(s@, sep, i + 1));
            }
            pieces.push(piece);
            start = i + 1;
        }
        i = i + 1;
    }
    let piece = s.substring_char(start, len).to_owned();
    proof {
        let done = texts(pieces@);
        let more = texts(pieces@.push(piece));
        assert(more =~= done + seq![s@.subrange(start as int, len as int)]);
    }
    pieces.push(piece);
    pieces
}

/// Reads the command line. `argv` holds the arguments without the name of
/// the program.
pub fn process_args(argv: &Vec<String>) -> (read: Result<Args, ArgError>)
    ensures
        match spec_process(texts(argv@), 0, no_args()) {
            Ok(asked) => read matches Ok(args) && args@ == asked,
            Err(fault) => read matches Err(e) && e == fault,
        },
{
    let mut args = Args::default();
    let mut i: usize = 0;
    while i < argv.len()
        invariant
            i <= argv@.len(),
            spec_process(texts(argv@), 0, no_args()) == spec_process(texts(argv@), i as int, args@),
        decreases argv@.len() - i,
    {
        let ghost before = args@;
        let arg = &argv[i];
        assert(texts(argv@)[i as int] == arg@);
        match flag_of(arg.as_str()) {
            None => {
                args.unknown.push(arg.clone());
                assert(args@ =~~= (ArgsSpec { unknown: before.unknown.push(arg@), ..before }));
                i = i + 1;
            },
            Some(Flag::Candump) => {
                args.candatainput = CanDataInput::File;
                assert(args@ =~~= spec_apply(before, Flag::Candump, Seq::empty()));
                i = i + 1;
            },
            Some(Flag::Socket) => {
                args.candatainput = CanDataInput::Socket;
                assert(args@ =~~= spec_apply(before, Flag::Socket, Seq::empty()));
                i = i + 1;
            },
            Some(Flag::Stdin) => {
                args.candatainput = CanDataInput::Stdin;
                assert(args@ =~~= spec_apply(before, Flag::Stdin, Seq::empty()));
                i = i + 1;
            },
            Some(Flag::Remote) => {
                args.candatainput = CanDataInput::Remote;
                assert(args@ =~~= spec_apply(before, Flag::Remote, Seq::empty()));
                i = i + 1;
            },
            Some(flag) => {
                if i + 1 >= argv.len() {
                    return Err(ArgError::MissingValue { flag, at: i });
                }
                let value = &argv[i + 1];
                assert(texts(argv@)[i + 1] == value@);
                match flag {
                    Flag::Dbc => {
                        args.dbcfile = value.clone();
                    },
                    Flag::Input => {
                        args.input = value.clone();
                    },
                    Flag::CacheMs => {
                        args.cache_ms = value.clone();
                    },
                    Flag::Output => {
                        args.output = value.clone();
                        args.en_ipm = true;
                    },
                    _ => {
                        let list = split(value.as_str(), ',');
                        let ghost outputs = args.aux_outputs@;
                        let mut k: usize = 0;
                        while k < list.len()
                            invariant
                                k <= list@.len(),
                                texts(args.aux_outputs@) == texts(outputs) + texts(list@).subrange(
                                    0,
                                    k as int,
                                ),
                                args@ == (ArgsSpec {
                                    aux_outputs: texts(args.aux_outputs@),
                                    ..before
                                }),
                            decreases list@.len() - k,
                        {
                            let name = list[k].clone();
                            proof {
                                let so_far = texts(args.aux_outputs@);
                                assert(texts(args.aux_outputs@.push(name)) =~= so_far + seq![
                                    list@[k as int]@,
                                ]);
                                assert(texts(list@).subrange(0, k + 1) =~= texts(list@).subrange(
                                    0,
                                    k as int,
                                ) + seq![list@[k as int]@]);
                            }
                            args.aux_outputs.push(name);
                            k = k + 1;
                        }
                        proof {
                            assert(texts(list@).subrange(0, list@.len() as int) =~= texts(list@));
                            assert(groups(args.plots@.push(list)) =~= groups(args.plots@).push(
                                texts(list@),
                            ));
                        }
                        args.plots.push(list);
                        args.en_aux = true;
                    },
                }
                assert(args@ =~~= spec_apply(before, flag, value@));
                i = i + 2;
            },
        }
    }
    Ok(args)
}

} // verus!
