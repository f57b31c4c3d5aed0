//! Command-line parsing: the flags are read left to right, each consuming
//! the following token as its argument; unrecognized tokens are ignored.

use vstd::prelude::*;
use vstd::string::StringExecFns;
use crate::text::str_eq;

verus! {

/// Mathematical model of the run configuration.
#[verifier::ext_equal]
pub ghost struct ConfigView {
    pub out_file: Seq<char>,
    pub in_file: Seq<char>,
    pub state: Seq<char>,
    pub database_file: Seq<char>,
}

/// The file paths and target state a filter run uses.
pub struct Config {
    pub out_file: String,
    pub in_file: String,
    pub state: String,
    pub database_file: String,
}

impl View for Config {
    type V = ConfigView;

    open spec fn view(&self) -> ConfigView {
        ConfigView {
            out_file: self.out_file@,
            in_file: self.in_file@,
            state: self.state@,
            database_file: self.database_file@,
        }
    }
}

/// The configuration before any flag is read.
pub open spec fn default_config() -> ConfigView {
    ConfigView { out_file: "out.txt"@, in_file: "target.txt"@, state: "ME"@, database_file: "data.csv"@ }
}

/// The flag whose required argument was missing.
#[derive(Debug, PartialEq, Eq, Structural, Clone, Copy)]
pub enum FlagKind {
    OutFile,
    InFile,
    State,
    DatabaseFile,
    LookupNumber,
}

/// Mathematical model of what the command line asks for.
pub ghost enum CliActionView {
    Help,
    MissingArg(FlagKind),
    Lookup { database_file: Seq<char>, routing_number: Seq<char> },
    Filter(ConfigView),
}

/// What the command line asks for: print help, report a flag without its
/// argument, look one routing number up, or run the filter.
pub enum CliAction {
    Help,
    MissingArg(FlagKind),
    Lookup { database_file: String, routing_number: String },
    Filter(Config),
}

impl View for CliAction {
    type V = CliActionView;

    open spec fn view(&self) -> CliActionView {
        match self {
            CliAction::Help => CliActionView::Help,
            CliAction::MissingArg(k) => CliActionView::MissingArg(*k),
            CliAction::Lookup { database_file, routing_number } => CliActionView::Lookup {
                database_file: database_file@,
                routing_number: routing_number@,
            },
            CliAction::Filter(cfg) => CliActionView::Filter(cfg@),
        }
    }
}

/// Reads the remaining tokens left to right against the configuration built
/// so far. `help` and `-h` stop with the help action; `-l` stops with a
/// lookup against the database file set so far; the four path and state
/// flags each consume the next token; anything else is ignored.
pub open spec fn parse_args_from(args: Seq<Seq<char>>, cfg: ConfigView) -> CliActionView
    decreases args.len(),
{
    if args.len() == 0 {
        CliActionView::Filter(cfg)
    } else {
        let a = args[0];
        let rest = args.drop_first();
        if a == "help"@ || a == "-h"@ {
            CliActionView::Help
        } else if a == "-f"@ {
            if rest.len() == 0 {
                CliActionView::MissingArg(FlagKind::OutFile)
            } else {
                parse_args_from(
                    rest.drop_first(),
                    ConfigView {
                        out_file: rest[0],
                        in_file: cfg.in_file,
                        state: cfg.state,
                        database_file: cfg.database_file,
                    },
                )
            }
        } else if a == "-i"@ {
            if rest.len() == 0 {
                CliActionView::MissingArg(FlagKind::InFile)
            } else {
                parse_args_from(
                    rest.drop_first(),
                    ConfigView {
                        out_file: cfg.out_file,
                        in_file: rest[0],
                        state: cfg.state,
                        database_file: cfg.database_file,
                    },
                )
            }
        } else if a == "-s"@ {
            if rest.len() == 0 {
                CliActionView::MissingArg(FlagKind::State)
            } else {
                parse_args_from(
                    rest.drop_first(),
                    ConfigView {
                        out_file: cfg.out_file,
                        in_file: cfg.in_file,
                        state: rest[0],
                        database_file: cfg.database_file,
                    },
                )
            }
        } else if a == "-d"@ {
            if rest.len() == 0 {
                CliActionView::MissingArg(FlagKind::DatabaseFile)
            } else {
                parse_args_from(
                    rest.drop_first(),
                    ConfigView {
                        out_file: cfg.out_file,
                        in_file: cfg.in_file,
                        state: cfg.state,
                        database_file: rest[0],
                    },
                )
            }
        } else if a == "-l"@ {
            if rest.len() == 0 {
                CliActionView::MissingArg(FlagKind::LookupNumber)
            } else {
                CliActionView::Lookup { database_file: cfg.database_file, routing_number: rest[0] }
            }
        } else {
            parse_args_from(rest, cfg)
        }
    }
}

/// What a full command line asks for, starting from the defaults.
pub open spec fn parse_args_spec(args: Seq<Seq<char>>) -> CliActionView {
    parse_args_from(args, default_config())
}

/// Parses the command-line tokens, program name included, exactly as
/// `parse_args_spec` says.
pub fn parse_args(args: &Vec<String>) -> (r: CliAction)
    ensures
        r@ == parse_args_spec(args@.map_values(|a: String| a@)),
{
    let ghost av = args@.map_values(|a: String| a@);
    let mut cfg = Config {
        out_file: String::from_str("out.txt"),
        in_file: String::from_str("target.txt"),
        state: String::from_str("ME"),
        database_file: String::from_str("data.csv"),
    };
    proof {
        assert(cfg@ =~= default_config());
        assert(av.subrange(0, av.len() as int) =~= av);
    }
    let mut i: usize = 0;
    while i < args.len()
        invariant
            i <= args@.len(),
            av == args@.map_values(|a: String| a@),
            av.len() == args@.len(),
            parse_args_from(av.subrange(i as int, av.len() as int), cfg@) == parse_args_spec(av),
        decreases args@.len() - i,
    {
        let ghost suffix = av.subrange(i as int, av.len() as int);
        proof {
            assert(suffix[0] == av[i as int]);
            assert(av[i as int] == args@[i as int]@);
            assert(suffix.drop_first() =~= av.subrange(i + 1, av.len() as int));
        }
        let arg = &args[i];
        if str_eq(arg.as_str(), "help") || str_eq(arg.as_str(), "-h") {
            return CliAction::Help;
        } else if str_eq(arg.as_str(), "-f") {
            if i + 1 >= args.len() {
                return CliAction::MissingArg(FlagKind::OutFile);
            }
            proof {
                assert(suffix.drop_first()[0] == av[i + 1]);
                assert(suffix.drop_first().drop_first() =~= av.subrange(i + 2, av.len() as int));
            }
            cfg.out_file = args[i + 1].clone();
            i += 2;
        } else if str_eq(arg.as_str(), "-i") {
            if i + 1 >= args.len() {
                return CliAction::MissingArg(FlagKind::InFile);
            }
            proof {
                assert(suffix.drop_first()[0] == av[i + 1]);
                assert(suffix.drop_first().drop_first() =~= av.subrange(i + 2, av.len() as int));
            }
            cfg.in_file = args[i + 1].clone();
            i += 2;
        } else if str_eq(arg.as_str(), "-s") {
            if i + 1 >= args.len() {
                return CliAction::MissingArg(FlagKind::State);
            }
            proof {
                assert(suffix.drop_first()[0] == av[i + 1]);
                assert(suffix.drop_first().drop_first() =~= av.subrange(i + 2, av.len() as int));
            }
            cfg.state = args[i + 1].clone();
            i += 2;
        } else if str_eq(arg.as_str(), "-d") {
            if i + 1 >= args.len() {
                return CliAction::MissingArg(FlagKind::DatabaseFile);
            }
            proof {
                assert(suffix.drop_first()[0] == av[i + 1]);
                assert(suffix.drop_first().drop_first() =~= av.subrange(i + 2, av.len() as int));
            }
            cfg.database_file = args[i + 1].clone();
            i += 2;
        } else if str_eq(arg.as_str(), "-l") {
            if i + 1 >= args.len() {
                return CliAction::MissingArg(FlagKind::LookupNumber);
            }
            return CliAction::Lookup {
                database_file: cfg.database_file,
                routing_number: args[i + 1].clone(),
            };
        } else {
            i += 1;
        }
    }
    proof {
        assert(av.subrange(i as int, av.len() as int) =~= Seq::<Seq<char>>::empty());
    }
    CliAction::Filter(cfg)
}

} // verus!
