//! What a vudo invocation means.

use vstd::prelude::*;
use vstd::string::*;
use crate::text::{chars_of, eq_lit, extend_strings, strings_view};

verus! {

/// What vudo was asked to do.
pub enum Action {
    /// No arguments at all (or only `--`): print usage and fail.
    Empty,
    Help,
    Version,
    /// Replace this binary with the latest release.
    Update,
    /// A leading option that vudo does not know.
    UnknownOption(String),
    /// Run this command as root.
    Run(Vec<String>),
}

/// The mathematical form of an [`Action`].
pub enum ActionView {
    Empty,
    Help,
    Version,
    Update,
    UnknownOption(Seq<char>),
    Run(Seq<Seq<char>>),
}

impl View for Action {
    type V = ActionView;

    open spec fn view(&self) -> ActionView {
        match self {
            Action::Empty => ActionView::Empty,
            Action::Help => ActionView::Help,
            Action::Version => ActionView::Version,
            Action::Update => ActionView::Update,
            Action::UnknownOption(o) => ActionView::UnknownOption(o@),
            Action::Run(c) => ActionView::Run(strings_view(c@)),
        }
    }
}

/// What `args` (the arguments after `vudo`) mean. Reserved options are only
/// recognized in the leading position; everything else is the command to run
/// as root, and a bare `--` ends option parsing.
pub open spec fn classified(args: Seq<Seq<char>>) -> ActionView {
    if args.len() == 0 {
        ActionView::Empty
    } else {
        let first = args[0];
        if first == "-h"@ || first == "--help"@ {
            ActionView::Help
        } else if first == "-V"@ || first == "--version"@ {
            ActionView::Version
        } else if first == "--update"@ {
            ActionView::Update
        } else if first == "--"@ {
            if args.len() == 1 {
                ActionView::Empty
            } else {
                ActionView::Run(args.drop_first())
            }
        } else if first.len() > 0 && first[0] == '-' {
            ActionView::UnknownOption(first)
        } else {
            ActionView::Run(args)
        }
    }
}

/// Everything that does not start with a dash is a command, and it is run
/// exactly as given: no argument is dropped, added or changed.
pub proof fn command_runs_as_given(args: Seq<Seq<char>>)
    requires
        args.len() > 0,
        args[0].len() == 0 || args[0][0] != '-',
    ensures
        classified(args) == ActionView::Run(args),
{
    reveal_strlit("-h");
    reveal_strlit("--help");
    reveal_strlit("-V");
    reveal_strlit("--version");
    reveal_strlit("--update");
    reveal_strlit("--");
    if args[0].len() > 0 {
        assert(args[0] != "-h"@ && args[0] != "--help"@ && args[0] != "-V"@ && args[0]
            != "--version"@ && args[0] != "--update"@ && args[0] != "--"@) by {
            assert("-h"@[0] == '-');
            assert("--help"@[0] == '-');
            assert("-V"@[0] == '-');
            assert("--version"@[0] == '-');
            assert("--update"@[0] == '-');
            assert("--"@[0] == '-');
        }
    } else {
        assert("-h"@.len() > 0 && "--help"@.len() > 0 && "-V"@.len() > 0 && "--version"@.len() > 0
            && "--update"@.len() > 0 && "--"@.len() > 0);
    }
}

/// After a leading `--`, whatever follows is the command, even when it
/// starts with a dash or looks like one of vudo's options.
pub proof fn double_dash_runs_the_rest(rest: Seq<Seq<char>>)
    requires
        rest.len() > 0,
    ensures
        classified(seq!["--"@] + rest) == ActionView::Run(rest),
{
    reveal_strlit("-h");
    reveal_strlit("--help");
    reveal_strlit("-V");
    reveal_strlit("--version");
    reveal_strlit("--update");
    reveal_strlit("--");
    let args = seq!["--"@] + rest;
    assert(args[0] == "--"@);
    assert(args.drop_first() =~= rest);
    assert("--"@ != "-h"@) by {
        assert("--"@[1] != "-h"@[1]);
    }
    assert("--"@ != "-V"@) by {
        assert("--"@[1] != "-V"@[1]);
    }
    assert("--"@.len() != "--help"@.len());
    assert("--"@.len() != "--version"@.len());
    assert("--"@.len() != "--update"@.len());
}

/// Decide what a vudo invocation means. Reserved options are only recognized in
/// the leading position; everything else is the command to run as root. A bare
/// `--` ends option parsing, so a command whose name starts with `-` can still
/// be run (`vudo -- --weird-tool`).
pub fn classify(args: Vec<String>) -> (a: Action)
    ensures
        a@ == classified(strings_view(args@)),
{
    let ghost names = strings_view(args@);
    if args.len() == 0 {
        return Action::Empty;
    }
    let first = chars_of(args[0].as_str());
    assert(names[0] == first@);
    if eq_lit(&first, "-h") || eq_lit(&first, "--help") {
        Action::Help
    } else if eq_lit(&first, "-V") || eq_lit(&first, "--version") {
        Action::Version
    } else if eq_lit(&first, "--update") {
        Action::Update
    } else if eq_lit(&first, "--") {
        if args.len() == 1 {
            Action::Empty
        } else {
            let mut rest: Vec<String> = Vec::new();
            extend_strings(&mut rest, args.as_slice(), 1);
            assert(strings_view(rest@) =~= names.drop_first());
            Action::Run(rest)
        }
    } else if first.len() > 0 && first[0] == '-' {
        Action::UnknownOption(args[0].clone())
    } else {
        Action::Run(args)
    }
}

} // verus!
