use crate::date::{naive_date_from_str, Date};
use crate::prelude::{Error, Result};
use crate::text::{
    parse_usize, same_text, strip_leading_dashes, usize_from_str, without_leading_dashes,
};
use vstd::prelude::*;

verus! {

/// The names of the three arguments of the tool.
#[derive(Debug)]
pub enum ArgumentIn {
    Amount,
    Oldest,
    FolderPath,
}

impl ArgumentIn {
    /// The argument called `s`: `amount`, `oldest` or `folder_path`.
    pub fn parse_name(s: &str) -> (res: Result<Self>)
        ensures
            s@ == seq!['a', 'm', 'o', 'u', 'n', 't'] ==> res matches Ok(ArgumentIn::Amount),
            s@ == seq!['o', 'l', 'd', 'e', 's', 't'] ==> res matches Ok(ArgumentIn::Oldest),
            s@ == seq!['f', 'o', 'l', 'd', 'e', 'r', '_', 'p', 'a', 't', 'h'] ==> res matches Ok(
                ArgumentIn::FolderPath,
            ),
            s@ != seq!['a', 'm', 'o', 'u', 'n', 't'] && s@ != seq!['o', 'l', 'd', 'e', 's', 't']
                && s@ != seq!['f', 'o', 'l', 'd', 'e', 'r', '_', 'p', 'a', 't', 'h']
                ==> res matches Err(Error::InvalidInput),
    {
        proof {
            reveal_strlit("amount");
            reveal_strlit("oldest");
            reveal_strlit("folder_path");
            assert("amount"@ =~= seq!['a', 'm', 'o', 'u', 'n', 't']);
            assert("oldest"@ =~= seq!['o', 'l', 'd', 'e', 's', 't']);
            assert("folder_path"@ =~= seq!['f', 'o', 'l', 'd', 'e', 'r', '_', 'p', 'a', 't', 'h']);
        }
        if same_text(s, "amount") {
            Ok(ArgumentIn::Amount)
        } else if same_text(s, "oldest") {
            Ok(ArgumentIn::Oldest)
        } else if same_text(s, "folder_path") {
            Ok(ArgumentIn::FolderPath)
        } else {
            Err(Error::InvalidInput)
        }
    }
}

impl std::str::FromStr for ArgumentIn {
    type Err = Error;

    fn from_str(s: &str) -> (res: Result<Self>)
        ensures
            s@ == seq!['a', 'm', 'o', 'u', 'n', 't'] ==> res matches Ok(ArgumentIn::Amount),
            s@ == seq!['o', 'l', 'd', 'e', 's', 't'] ==> res matches Ok(ArgumentIn::Oldest),
            s@ == seq!['f', 'o', 'l', 'd', 'e', 'r', '_', 'p', 'a', 't', 'h'] ==> res matches Ok(
                ArgumentIn::FolderPath,
            ),
            s@ != seq!['a', 'm', 'o', 'u', 'n', 't'] && s@ != seq!['o', 'l', 'd', 'e', 's', 't']
                && s@ != seq!['f', 'o', 'l', 'd', 'e', 'r', '_', 'p', 'a', 't', 'h']
                ==> res matches Err(Error::InvalidInput),
    {
        Self::parse_name(s)
    }
}

/// What the user asked for on the command line.
#[derive(Debug)]
pub struct UserInput {
    /// The least number of files that makes a folder worth archiving.
    pub required_min_files: usize,
    /// Files last changed on this day or earlier are archived.
    pub oldest_to_keep: Date,
    /// The folder to archive.
    pub folder_path: String,
}

impl View for UserInput {
    type V = (int, Date, Seq<char>);

    open spec fn view(&self) -> (int, Date, Seq<char>) {
        (self.required_min_files as int, self.oldest_to_keep, self.folder_path@)
    }
}

impl Default for UserInput {
    fn default() -> (res: Self)
        ensures
            res@ == (0int, epoch_date(), Seq::<char>::empty()),
    {
        UserInput { required_min_files: 0, oldest_to_keep: Date::epoch(), folder_path: String::new() }
    }
}

/// What the command line asks the tool to do.
#[derive(Debug)]
pub enum Command {
    /// Print the usage text and stop.
    Help,
    /// Archive with these inputs.
    Run(UserInput),
}

/// The first of January 1970.
pub open spec fn epoch_date() -> Date {
    Date { year: 1970, month: 1, day: 1 }
}

/// The date named by a `(year, month, day)` triple.
pub open spec fn date_from_triple(t: (int, int, int)) -> Date {
    Date { year: t.0 as i32, month: t.1 as u32, day: t.2 as u32 }
}

/// The texts of a list of strings.
pub open spec fn texts(args: Seq<String>) -> Seq<Seq<char>> {
    args.map_values(|s: String| s@)
}

/// The word that asks for the usage text.
pub open spec fn help_word() -> Seq<char> {
    seq!['h', 'e', 'l', 'p']
}

/// The inputs read from exactly three arguments `rest`, by position: the
/// minimum number of files, the cut-off date and the folder.
pub open spec fn input_from_arguments(rest: Seq<Seq<char>>) -> (int, Date, Seq<char>) {
    (
        usize_from_str(rest[0]).unwrap(),
        date_from_triple(naive_date_from_str(rest[1]).unwrap()),
        rest[2],
    )
}

/// `res` is what the command line `args` (the program's name first) asks for.
pub open spec fn command_for(args: Seq<Seq<char>>, res: Result<Command>) -> bool {
    let rest = args.drop_first();
    &&& rest.len() == 0 ==> (res matches Ok(Command::Help))
    &&& rest.len() == 1 ==> if without_leading_dashes(rest[0]) == help_word() {
        (res matches Ok(Command::Help))
    } else {
        (res matches Err(Error::OnlyProvidedOneArgument))
    }
    &&& rest.len() == 2 ==> (res matches Err(Error::OnlyProvideTwoArguments))
    &&& rest.len() == 3 ==> if usize_from_str(rest[0]) is None {
        (res matches Err(Error::ParsInt(_)))
    } else if naive_date_from_str(rest[1]) is None {
        (res matches Err(Error::DateFormat(_)))
    } else {
        (res matches Ok(Command::Run(input)) && input@ == input_from_arguments(rest))
    }
    &&& rest.len() > 3 ==> (res matches Err(Error::TooManyArguments))
}

/// The program's name, the first argument, plays no part in what the
/// command line asks for.
pub proof fn lemma_program_name_ignored(
    args: Seq<Seq<char>>,
    other: Seq<Seq<char>>,
    res: Result<Command>,
)
    requires
        args.len() >= 1,
        other.len() >= 1,
        args.drop_first() == other.drop_first(),
    ensures
        command_for(args, res) == command_for(other, res),
{
}

impl UserInput {
    /// Reads the command line `args`, the program's name first.
    ///
    /// No arguments, or the single argument `help` (with any number of
    /// leading dashes), ask for the usage text. Exactly three arguments are,
    /// in this order, the minimum number of files, the date and the folder; a
    /// minimum that is not a number, or a date that is not one, is refused
    /// with its error. One, two or more than three arguments are refused.
    pub fn from_user_input(args: Vec<String>) -> (res: Result<Command>)
        requires
            args.len() >= 1,
        ensures
            command_for(texts(args@), res),
    {
        let ghost all = texts(args@);
        let mut args = args;
        args.remove(0);
        assert(texts(args@) =~= all.drop_first());
        if args.len() == 0 {
            return Ok(Command::Help);
        }
        let mut de_dashed: Vec<String> = Vec::new();
        let mut i: usize = 0;
        while i < args.len()
            invariant
                0 <= i <= args.len(),
                de_dashed.len() == i,
                forall|j: int| 0 <= j < i ==> de_dashed@[j]@ == without_leading_dashes(args@[j]@),
            decreases args.len() - i,
        {
            let d = strip_leading_dashes(args[i].as_str());
            de_dashed.push(d);
            i = i + 1;
        }
        let n = de_dashed.len();
        if n == 1 {
            proof {
                reveal_strlit("help");
                assert("help"@ =~= help_word());
            }
            if same_text(de_dashed[0].as_str(), "help") {
                Ok(Command::Help)
            } else {
                Err(Error::OnlyProvidedOneArgument)
            }
        } else if n == 2 {
            Err(Error::OnlyProvideTwoArguments)
        } else if n == 3 {
            let ghost rest = texts(args@);
            let mut input = UserInput::default();
            input.by_index(0, args[0].as_str())?;
            input.by_index(1, args[1].as_str())?;
            input.by_index(2, args[2].as_str())?;
            assert(input@ == input_from_arguments(rest));
            Ok(Command::Run(input))
        } else {
            Err(Error::TooManyArguments)
        }
    }

    /// Sets the field at position `index` (the amount, the date, the folder)
    /// from the text `value`; other positions change nothing. An amount that
    /// is not a number, or a date that is not one, is refused with its error
    /// and changes nothing.
    fn by_index(&mut self, index: usize, value: &str) -> (res: Result<()>)
        ensures
            index == 0 && usize_from_str(value@) is None ==> (res matches Err(Error::ParsInt(_))),
            index == 1 && naive_date_from_str(value@) is None ==> (res matches Err(
                Error::DateFormat(_),
            )),
            res is Err ==> final(self)@ == old(self)@,
            res is Ok ==> final(self)@ == (if index == 0 {
                (usize_from_str(value@).unwrap(), old(self)@.1, old(self)@.2)
            } else if index == 1 {
                (old(self)@.0, date_from_triple(naive_date_from_str(value@).unwrap()), old(self)@.2)
            } else if index == 2 {
                (old(self)@.0, old(self)@.1, value@)
            } else {
                old(self)@
            }),
            res is Ok <==> (index == 0 ==> usize_from_str(value@) is Some) && (index == 1
                ==> naive_date_from_str(value@) is Some),
    {
        if index == 0 {
            match parse_usize(value) {
                Ok(n) => {
                    self.required_min_files = n;
                },
                Err(e) => {
                    return Err(Error::ParsInt(e));
                },
            }
        } else if index == 1 {
            match Date::parse(value) {
                Ok(d) => {
                    self.oldest_to_keep = d;
                },
                Err(e) => {
                    return Err(Error::DateFormat(e));
                },
            }
        } else if index == 2 {
            self.folder_path = String::from_str(value);
        }
        Ok(())
    }
}

} // verus!
