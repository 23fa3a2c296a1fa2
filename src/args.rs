//! Parsing the argument list into a generation request.
//!
//! The arguments are read in two phases. Flags come first, up to the first
//! token that does not start with `-`, which is the length. Every token after
//! the length is a directive group: a sign (`+` include, `-` exclude) then set
//! letters (`d`, `l`, `u`, `s`, `m`), the letter `A` that clears every set,
//! and custom runs `[...]` of literal characters. The last directive on a set
//! decides whether it is included.
use vstd::prelude::*;
use crate::error::{ArgName, ErrorModel, GenError};
use crate::pool::SET_COUNT;
use crate::text::{chars_of, is_word, parse_decimal, parse_usize};

verus! {

/// The pool directives gathered so far.
pub struct DirectiveState {
    /// Whether each predefined set is included, in canonical set order.
    pub sets: Vec<bool>,
    /// Custom characters to add, in the order they were given.
    pub add_chars: Vec<char>,
    /// Custom characters to remove, in the order they were given.
    pub remove_chars: Vec<char>,
}

/// The mathematical value of a [`DirectiveState`].
pub struct Directives {
    pub sets: Seq<bool>,
    pub add: Seq<char>,
    pub remove: Seq<char>,
}

impl View for DirectiveState {
    type V = Directives;

    open spec fn view(&self) -> Directives {
        Directives { sets: self.sets@, add: self.add_chars@, remove: self.remove_chars@ }
    }
}

/// A validated request to generate strings.
pub struct Request {
    /// The number of characters in each string.
    pub length: usize,
    /// How many strings to generate; at least one.
    pub repeat: usize,
    /// Whether the last string goes to the clipboard.
    pub copy: bool,
    /// Whether the resolved pool is shown before the strings.
    pub show_pool: bool,
    /// The pool directives, applied in order.
    pub directives: DirectiveState,
}

/// The mathematical value of a [`Request`].
pub struct RequestModel {
    pub length: nat,
    pub repeat: nat,
    pub copy: bool,
    pub show_pool: bool,
    pub directives: Directives,
}

impl View for Request {
    type V = RequestModel;

    open spec fn view(&self) -> RequestModel {
        RequestModel {
            length: self.length as nat,
            repeat: self.repeat as nat,
            copy: self.copy,
            show_pool: self.show_pool,
            directives: self.directives@,
        }
    }
}

/// What the argument list asks for.
pub enum Command {
    /// Show the help text and stop.
    Help,
    /// Generate strings.
    Generate(Request),
}

/// The mathematical value of a [`Command`].
pub enum CommandModel {
    Help,
    Generate(RequestModel),
}

impl View for Command {
    type V = CommandModel;

    open spec fn view(&self) -> CommandModel {
        match self {
            Command::Help => CommandModel::Help,
            Command::Generate(r) => CommandModel::Generate(r@),
        }
    }
}

/// The predefined set that a directive letter names, or -1 for none.
pub open spec fn set_of_letter(c: char) -> int {
    if c == 'd' {
        0
    } else if c == 'l' {
        1
    } else if c == 'u' {
        2
    } else if c == 's' {
        3
    } else if c == 'm' {
        4
    } else {
        -1
    }
}

/// Every predefined set included, and no custom character.
pub open spec fn default_directives() -> Directives {
    Directives { sets: Seq::new(SET_COUNT as nat, |k: int| true), add: Seq::empty(), remove: Seq::empty() }
}

/// Scans directive group `t` from index `i` with the given sign; `in_run`
/// holds inside a custom run, which a `]` or the end of the token closes.
/// Outside a run, a `+` or `-` sets the sign for what follows in the group.
pub open spec fn scan_group(d: Directives, sign: bool, t: Seq<char>, i: int, in_run: bool) -> Result<
    Directives,
    ErrorModel,
>
    decreases t.len() - i,
{
    if i < 0 || i >= t.len() {
        Ok(d)
    } else if in_run {
        if t[i] == ']' {
            scan_group(d, sign, t, i + 1, false)
        } else if sign {
            scan_group(Directives { add: d.add.push(t[i]), ..d }, sign, t, i + 1, true)
        } else {
            scan_group(Directives { remove: d.remove.push(t[i]), ..d }, sign, t, i + 1, true)
        }
    } else if set_of_letter(t[i]) >= 0 {
        scan_group(
            Directives { sets: d.sets.update(set_of_letter(t[i]), sign), ..d },
            sign,
            t,
            i + 1,
            false,
        )
    } else if t[i] == '+' {
        scan_group(d, true, t, i + 1, false)
    } else if t[i] == '-' {
        scan_group(d, false, t, i + 1, false)
    } else if t[i] == 'A' {
        scan_group(
            Directives { sets: Seq::new(SET_COUNT as nat, |k: int| false), ..d },
            sign,
            t,
            i + 1,
            false,
        )
    } else if t[i] == '[' {
        scan_group(d, sign, t, i + 1, true)
    } else {
        Err(ErrorModel::InvalidPoolEntry(t[i]))
    }
}

/// Applies one directive group token; an empty token changes nothing.
pub open spec fn apply_token(d: Directives, t: Seq<char>) -> Result<Directives, ErrorModel> {
    if t.len() == 0 {
        Ok(d)
    } else if t[0] == '+' {
        scan_group(d, true, t, 1, false)
    } else if t[0] == '-' {
        scan_group(d, false, t, 1, false)
    } else {
        Err(ErrorModel::InvalidPrefix(t[0]))
    }
}

/// Applies the directive group tokens `toks[k..]` in order.
pub open spec fn apply_tokens(d: Directives, toks: Seq<Seq<char>>, k: int) -> Result<
    Directives,
    ErrorModel,
>
    decreases toks.len() - k,
{
    if k < 0 || k >= toks.len() {
        Ok(d)
    } else {
        match apply_token(d, toks[k]) {
            Ok(d2) => apply_tokens(d2, toks, k + 1),
            Err(e) => Err(e),
        }
    }
}

/// Parses the flags from `toks[i]` on, with the options gathered so far,
/// then the length and the directive groups after it.
pub open spec fn parse_from(
    toks: Seq<Seq<char>>,
    i: int,
    copy: bool,
    show_pool: bool,
    repeat: nat,
) -> Result<CommandModel, ErrorModel>
    decreases toks.len() - i,
{
    if i < 0 || i >= toks.len() {
        Err(ErrorModel::MissingArgument(ArgName::Length))
    } else if toks[i] == "--help"@ || toks[i] == "-h"@ {
        Ok(CommandModel::Help)
    } else if toks[i] == "--copy"@ || toks[i] == "-c"@ {
        parse_from(toks, i + 1, true, show_pool, repeat)
    } else if toks[i] == "--show-pool"@ {
        parse_from(toks, i + 1, copy, true, repeat)
    } else if toks[i] == "--repeat"@ || toks[i] == "-r"@ {
        if i + 1 >= toks.len() {
            Err(ErrorModel::MissingArgument(ArgName::RepeatCount))
        } else {
            match parse_decimal(toks[i + 1]) {
                Some(n) => if n > 0 {
                    parse_from(toks, i + 2, copy, show_pool, n)
                } else {
                    Err(ErrorModel::InvalidInteger(ArgName::RepeatCount, toks[i + 1]))
                },
                None => Err(ErrorModel::InvalidInteger(ArgName::RepeatCount, toks[i + 1])),
            }
        }
    } else if toks[i].len() > 0 && toks[i][0] == '-' {
        Err(ErrorModel::UnknownFlag(toks[i]))
    } else {
        match parse_decimal(toks[i]) {
            None => Err(ErrorModel::InvalidInteger(ArgName::Length, toks[i])),
            Some(n) => match apply_tokens(default_directives(), toks, i + 1) {
                Ok(d) => Ok(
                    CommandModel::Generate(
                        RequestModel {
                            length: n,
                            repeat,
                            copy,
                            show_pool,
                            directives: d,
                        },
                    ),
                ),
                Err(e) => Err(e),
            },
        }
    }
}

/// What an argument list (without the program name) asks for.
pub open spec fn parse_spec(args: Seq<Seq<char>>) -> Result<CommandModel, ErrorModel> {
    parse_from(args, 0, false, false, 1)
}

/// The characters of each argument.
pub open spec fn tokens_of(args: Seq<String>) -> Seq<Seq<char>> {
    args.map_values(|s: String| s@)
}

/// The predefined set that directive letter `c` names, if any.
pub fn set_index(c: char) -> (r: Option<usize>)
    ensures
        r matches Some(k) ==> k as int == set_of_letter(c) && k < SET_COUNT,
        r is None ==> set_of_letter(c) < 0,
{
    if c == 'd' {
        Some(0)
    } else if c == 'l' {
        Some(1)
    } else if c == 'u' {
        Some(2)
    } else if c == 's' {
        Some(3)
    } else if c == 'm' {
        Some(4)
    } else {
        None
    }
}

impl DirectiveState {
    /// Every predefined set included, and no custom character.
    pub fn new() -> (r: DirectiveState)
        ensures
            r@ == default_directives(),
    {
        let r = DirectiveState {
            sets: vec![true, true, true, true, true],
            add_chars: Vec::new(),
            remove_chars: Vec::new(),
        };
        assert(r@.sets =~= default_directives().sets);
        r
    }

    /// Applies one directive group token: a sign, then set letters, `A`,
    /// custom runs and further signs. An empty token changes nothing.
    pub fn apply_group(&mut self, t: &Vec<char>) -> (r: Result<(), GenError>)
        requires
            old(self)@.sets.len() == SET_COUNT,
        ensures
            final(self)@.sets.len() == SET_COUNT,
            r is Ok ==> apply_token(old(self)@, t@) == Ok::<Directives, ErrorModel>(final(self)@),
            r matches Err(e) ==> apply_token(old(self)@, t@) == Err::<Directives, ErrorModel>(e@),
    {
        if t.len() == 0 {
            return Ok(());
        }
        let prefix = t[0];
        let mut sign = if prefix == '+' {
            true
        } else if prefix == '-' {
            false
        } else {
            return Err(GenError::InvalidPrefix(prefix));
        };
        let ghost d0 = self@;
        assert(apply_token(d0, t@) == scan_group(d0, sign, t@, 1, false));
        let mut i: usize = 1;
        let mut in_run = false;
        while i < t.len()
            invariant
                1 <= i <= t@.len(),
                d0 == old(self)@,
                self@.sets.len() == SET_COUNT,
                scan_group(self@, sign, t@, i as int, in_run) == apply_token(d0, t@),
            decreases t@.len() - i,
        {
            let c = t[i];
            if in_run {
                if c == ']' {
                    in_run = false;
                } else if sign {
                    self.add_chars.push(c);
                } else {
                    self.remove_chars.push(c);
                }
            } else if let Some(k) = set_index(c) {
                self.sets.set(k, sign);
            } else if c == '+' {
                sign = true;
            } else if c == '-' {
                sign = false;
            } else if c == 'A' {
                self.sets = vec![false, false, false, false, false];
                assert(self@.sets =~= Seq::new(SET_COUNT as nat, |k: int| false));
            } else if c == '[' {
                in_run = true;
            } else {
                assert(scan_group(self@, sign, t@, i as int, in_run) == Err::<Directives, ErrorModel>(
                    ErrorModel::InvalidPoolEntry(c),
                ));
                return Err(GenError::InvalidPoolEntry(c));
            }
            i = i + 1;
        }
        Ok(())
    }
}

/// Parses the argument list (without the program name) into a command.
pub fn parse_args(args: &Vec<String>) -> (r: Result<Command, GenError>)
    ensures
        r matches Ok(c) ==> parse_spec(tokens_of(args@)) == Ok::<CommandModel, ErrorModel>(c@),
        r matches Err(e) ==> parse_spec(tokens_of(args@)) == Err::<CommandModel, ErrorModel>(e@),
        r matches Ok(Command::Generate(q)) ==> q.directives.sets@.len() == SET_COUNT,
{
    let ghost toks = tokens_of(args@);
    let mut copy = false;
    let mut show_pool = false;
    let mut repeat: usize = 1;
    let mut i: usize = 0;
    while i < args.len()
        invariant
            i <= args@.len(),
            toks == tokens_of(args@),
            parse_from(toks, i as int, copy, show_pool, repeat as nat) == parse_spec(toks),
        decreases args@.len() - i,
    {
        let t = chars_of(args[i].as_str());
        assert(t@ == toks[i as int]);
        if is_word(&t, "--help") || is_word(&t, "-h") {
            return Ok(Command::Help);
        } else if is_word(&t, "--copy") || is_word(&t, "-c") {
            copy = true;
            i = i + 1;
        } else if is_word(&t, "--show-pool") {
            show_pool = true;
            i = i + 1;
        } else if is_word(&t, "--repeat") || is_word(&t, "-r") {
            if i + 1 >= args.len() {
                return Err(GenError::MissingArgument(ArgName::RepeatCount));
            }
            let count = chars_of(args[i + 1].as_str());
            assert(count@ == toks[i + 1]);
            match parse_usize(&count) {
                Some(n) => {
                    if n == 0 {
                        return Err(GenError::InvalidInteger(ArgName::RepeatCount, count));
                    }
                    repeat = n;
                },
                None => {
                    return Err(GenError::InvalidInteger(ArgName::RepeatCount, count));
                },
            }
            i = i + 2;
        } else if t.len() > 0 && t[0] == '-' {
            return Err(GenError::UnknownFlag(t));
        } else {
            let length = match parse_usize(&t) {
                Some(n) => n,
                None => {
                    return Err(GenError::InvalidInteger(ArgName::Length, t));
                },
            };
            let mut state = DirectiveState::new();
            let mut k: usize = i + 1;
            assert(parse_spec(toks) == match apply_tokens(default_directives(), toks, i + 1) {
                Ok(d) => Ok(
                    CommandModel::Generate(
                        RequestModel {
                            length: length as nat,
                            repeat: repeat as nat,
                            copy,
                            show_pool,
                            directives: d,
                        },
                    ),
                ),
                Err(e) => Err(e),
            });
            while k < args.len()
                invariant
                    i < k <= args@.len(),
                    parse_spec(toks) == match apply_tokens(default_directives(), toks, i + 1) {
                        Ok(d) => Ok(
                            CommandModel::Generate(
                                RequestModel {
                                    length: length as nat,
                                    repeat: repeat as nat,
                                    copy,
                                    show_pool,
                                    directives: d,
                                },
                            ),
                        ),
                        Err(e) => Err(e),
                    },
                    toks == tokens_of(args@),
                    state@.sets.len() == SET_COUNT,
                    apply_tokens(state@, toks, k as int) == apply_tokens(
                        default_directives(),
                        toks,
                        i + 1,
                    ),
                decreases args@.len() - k,
            {
                let group = chars_of(args[k].as_str());
                assert(group@ == toks[k as int]);
                let ghost before = state@;
                match state.apply_group(&group) {
                    Ok(()) => {},
                    Err(e) => {
                        assert(apply_tokens(before, toks, k as int) == Err::<Directives, ErrorModel>(
                            e@,
                        ));
                        return Err(e);
                    },
                }
                k = k + 1;
            }
            let request = Request { length, repeat, copy, show_pool, directives: state };
            return Ok(Command::Generate(request));
        }
    }
    Err(GenError::MissingArgument(ArgName::Length))
}

/// A directive group of one sign and one letter.
pub open spec fn one_letter_group(sign: bool, c: char) -> Seq<char> {
    seq![if sign { '+' } else { '-' }, c]
}

/// The last directive on a predefined set decides it: a group naming the set
/// with one sign followed by a group naming it with the other leaves the set
/// as the second sign says (so `+d -d` excludes digits and `-d +d` includes
/// them), and the other sets and the custom lists as they were.
pub proof fn lemma_last_directive_wins(d: Directives, c: char, first: bool, second: bool)
    requires
        d.sets.len() == SET_COUNT,
        set_of_letter(c) >= 0,
    ensures
        apply_tokens(d, seq![one_letter_group(first, c), one_letter_group(second, c)], 0) == Ok::<
            Directives,
            ErrorModel,
        >(Directives { sets: d.sets.update(set_of_letter(c), second), ..d }),
{
    let toks = seq![one_letter_group(first, c), one_letter_group(second, c)];
    let k = set_of_letter(c);
    let d1 = Directives { sets: d.sets.update(k, first), ..d };
    let d2 = Directives { sets: d1.sets.update(k, second), ..d1 };
    assert(scan_group(d1, first, toks[0], 2, false) == Ok::<Directives, ErrorModel>(d1));
    assert(apply_token(d, toks[0]) == Ok::<Directives, ErrorModel>(d1));
    assert(scan_group(d2, second, toks[1], 2, false) == Ok::<Directives, ErrorModel>(d2));
    assert(apply_token(d1, toks[1]) == Ok::<Directives, ErrorModel>(d2));
    assert(apply_tokens(d2, toks, 2) == Ok::<Directives, ErrorModel>(d2));
    assert(apply_tokens(d1, toks, 1) == Ok::<Directives, ErrorModel>(d2));
    assert(apply_tokens(d, toks, 0) == Ok::<Directives, ErrorModel>(d2));
    assert(d2.sets =~= d.sets.update(k, second));
    assert(d2 == Directives { sets: d.sets.update(k, second), ..d });
}

} // verus!
