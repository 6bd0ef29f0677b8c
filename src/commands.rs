//! Commands of a chat message: prefix-aware parsing of what the user asked for.

use vstd::prelude::*;
use vstd::string::StrSliceExecFns;
use crate::config::{strings_view, Bundle};
use crate::dice_types::{Expression, LabeledExpression, VersionedRollExpr};
use crate::parser::{
    labeled_parts, p_labeled, skip_spaces, spaces_end, spec_labeled, ParseError,
};
use crate::text::{chars_of, is_whitespace, string_of, unicode_whitespace};
use unicode_categories::UnicodeCategories;

verus! {

/// Whether a character is in one of Unicode's separator categories (Zs, Zl, Zp).
pub uninterp spec fn unicode_separator(c: char) -> bool;

/// Whether a character is in one of the "other" categories that a `char` can
/// have (Cc, Cf, Co).
pub uninterp spec fn unicode_other(c: char) -> bool;

/// Relies on unicode_categories' `is_separator`: membership in Zs, Zl or Zp,
/// looked up in its tables; the space is in Zs, the other printable ASCII
/// characters in none of them.
#[verifier::external_body]
fn is_separator(c: char) -> (r: bool)
    ensures
        r == unicode_separator(c),
        c == ' ' ==> r,
        ('!' <= c && c <= '~') ==> !r,
{
    c.is_separator()
}

/// Relies on unicode_categories' `is_other`: membership in Cc, Cf or Co,
/// looked up in its tables; the ASCII control characters are in Cc, the
/// printable ASCII characters in none of them.
#[verifier::external_body]
fn is_other(c: char) -> (r: bool)
    ensures
        r == unicode_other(c),
        (c == '\t' || c == '\n' || c == '\r') ==> r,
        (' ' <= c && c <= '~') ==> !r,
{
    c.is_other()
}

/// Characters allowed in prefixes and alias names.
pub open spec fn name_char(c: char) -> bool {
    !(c == '$' || unicode_separator(c) || unicode_other(c))
}

fn is_name_char(c: char) -> (r: bool)
    ensures
        r == name_char(c),
{
    !(c == '$' || is_separator(c) || is_other(c))
}

/// One name character.
pub fn chars_set(input: &str) -> (r: Result<(&str, char), ParseError>)
    ensures
        if input@.len() > 0 && name_char(input@[0]) {
            r matches Ok((rest, c)) && c == input@[0] && rest@ == input@.skip(1)
        } else {
            r is Err
        },
{
    let chars = chars_of(input);
    if chars.len() > 0 && is_name_char(chars[0]) {
        assert(input@.skip(1) =~= input@.subrange(1, chars.len() as int));
        Ok((input.substring_char(1, chars.len()), chars[0]))
    } else {
        Err(ParseError)
    }
}

#[derive(Debug, PartialEq, Eq)]
pub enum Command {
    Help,
    RollHelp,
    Info,
    SetCommandPrefix(String),
    GetCommandPrefix,
    SetRollInfo(bool),
    GetRollInfo,
    AddRollPrefix(String),
    RemoveRollPrefix(String),
    ListRollPrefix,
    AddAlias(String, VersionedRollExpr),
    RemoveAlias(String),
    ListAliases,
    AliasRoll(Vec<VersionedRollExpr>),
    Roll(VersionedRollExpr),
}

/// What a command holds; a roll is an expression and its label.
pub enum CommandView {
    Help,
    RollHelp,
    Info,
    SetCommandPrefix(Seq<char>),
    GetCommandPrefix,
    SetRollInfo(bool),
    GetRollInfo,
    AddRollPrefix(Seq<char>),
    RemoveRollPrefix(Seq<char>),
    ListRollPrefix,
    AddAlias(Seq<char>, Expression, Option<Seq<char>>),
    RemoveAlias(Seq<char>),
    ListAliases,
    AliasRoll(Seq<VersionedRollExpr>),
    Roll(Expression, Option<Seq<char>>),
}

impl Command {
    /// Rolls and added aliases are labeled expressions (the current version).
    pub open spec fn view(&self) -> CommandView {
        match self {
            Command::Help => CommandView::Help,
            Command::RollHelp => CommandView::RollHelp,
            Command::Info => CommandView::Info,
            Command::SetCommandPrefix(s) => CommandView::SetCommandPrefix(s@),
            Command::GetCommandPrefix => CommandView::GetCommandPrefix,
            Command::SetRollInfo(b) => CommandView::SetRollInfo(*b),
            Command::GetRollInfo => CommandView::GetRollInfo,
            Command::AddRollPrefix(s) => CommandView::AddRollPrefix(s@),
            Command::RemoveRollPrefix(s) => CommandView::RemoveRollPrefix(s@),
            Command::ListRollPrefix => CommandView::ListRollPrefix,
            Command::AddAlias(n, VersionedRollExpr::V2(le)) => CommandView::AddAlias(
                n@,
                labeled_parts(*le).0,
                labeled_parts(*le).1,
            ),
            Command::AddAlias(n, VersionedRollExpr::V1(e)) => CommandView::AddAlias(n@, *e, None),
            Command::RemoveAlias(s) => CommandView::RemoveAlias(s@),
            Command::ListAliases => CommandView::ListAliases,
            Command::AliasRoll(v) => CommandView::AliasRoll(v@),
            Command::Roll(VersionedRollExpr::V2(le)) => CommandView::Roll(
                labeled_parts(*le).0,
                labeled_parts(*le).1,
            ),
            Command::Roll(VersionedRollExpr::V1(e)) => CommandView::Roll(*e, None),
        }
    }
}

/// A character equal to a letter of a tag, ignoring ASCII case.
pub open spec fn same_ci(c: char, t: char) -> bool {
    c == t || ('a' <= t <= 'z' && (c as int) == (t as int) - 32)
}

/// The tag, ignoring ASCII case, at `pos`: the position after it.
pub open spec fn spec_tag(s: Seq<char>, pos: int, t: Seq<char>) -> Option<int> {
    if 0 <= pos && pos + t.len() <= s.len() && forall|i: int|
        0 <= i < t.len() ==> same_ci(#[trigger] s[pos + i], t[i]) {
        Some(pos + t.len())
    } else {
        None
    }
}

/// The literal text at `pos`, case included.
pub open spec fn spec_literal(s: Seq<char>, pos: int, t: Seq<char>) -> Option<int> {
    if 0 <= pos && pos + t.len() <= s.len() && s.subrange(pos, pos + t.len()) == t {
        Some(pos + t.len())
    } else {
        None
    }
}

fn same_ci_char(c: char, t: char) -> (r: bool)
    ensures
        r == same_ci(c, t),
{
    c == t || ('a' <= t && t <= 'z' && (c as u32) + 32 == t as u32)
}

fn tag_at(s: &Vec<char>, pos: usize, t: &str) -> (r: Option<usize>)
    requires
        pos <= s.len(),
    ensures
        match spec_tag(s@, pos as int, t@) {
            Some(e) => r == Some(e as usize) && e <= s.len(),
            None => r is None,
        },
{
    let n = t.unicode_len();
    if n > s.len() - pos {
        return None;
    }
    let mut i: usize = 0;
    while i < n
        invariant
            i <= n,
            n == t@.len(),
            pos + n <= s.len(),
            forall|j: int| 0 <= j < i ==> same_ci(#[trigger] s@[pos + j], t@[j]),
        decreases n - i,
    {
        if !same_ci_char(s[pos + i], t.get_char(i)) {
            return None;
        }
        i = i + 1;
    }
    Some(pos + n)
}

fn literal_at(s: &Vec<char>, pos: usize, t: &Vec<char>) -> (r: Option<usize>)
    requires
        pos <= s.len(),
    ensures
        match spec_literal(s@, pos as int, t@) {
            Some(e) => r == Some(e as usize) && e <= s.len(),
            None => r is None,
        },
{
    if t.len() > s.len() - pos {
        return None;
    }
    let mut i: usize = 0;
    while i < t.len()
        invariant
            i <= t.len(),
            pos + t.len() <= s.len(),
            forall|j: int| 0 <= j < i ==> s@[pos + j] == t@[j],
        decreases t.len() - i,
    {
        if s[pos + i] != t[i] {
            assert(s@.subrange(pos as int, pos + t.len())[i as int] == s@[pos + i]);
            return None;
        }
        i = i + 1;
    }
    assert(s@.subrange(pos as int, pos + t.len()) =~= t@);
    Some(pos + t.len())
}

/// End of the run of name characters at `pos`.
pub open spec fn name_end(s: Seq<char>, pos: int) -> int
    decreases s.len() - pos,
{
    if 0 <= pos < s.len() && name_char(s[pos]) {
        name_end(s, pos + 1)
    } else {
        pos
    }
}

fn skip_name(s: &Vec<char>, pos: usize) -> (r: usize)
    requires
        pos <= s.len(),
    ensures
        r == name_end(s@, pos as int),
        pos <= r <= s.len(),
    decreases s.len() - pos,
{
    if pos < s.len() && is_name_char(s[pos]) {
        skip_name(s, pos + 1)
    } else {
        pos
    }
}

fn copy_chars(s: &Vec<char>, from: usize, to: usize) -> (r: String)
    requires
        from <= to <= s.len(),
    ensures
        r@ == s@.subrange(from as int, to as int),
{
    let mut out: Vec<char> = Vec::new();
    let mut i: usize = from;
    while i < to
        invariant
            from <= i <= to,
            to <= s.len(),
            out@ == s@.subrange(from as int, i as int),
        decreases to - i,
    {
        out.push(s[i]);
        i = i + 1;
        assert(out@ =~= s@.subrange(from as int, i as int));
    }
    string_of(&out)
}

pub open spec fn spec_tag2(s: Seq<char>, pos: int, a: Seq<char>, b: Seq<char>) -> Option<int> {
    match spec_tag(s, pos, a) {
        Some(e) => Some(e),
        None => spec_tag(s, pos, b),
    }
}

pub open spec fn spec_tag4(s: Seq<char>, pos: int, a: Seq<char>, b: Seq<char>, c: Seq<char>, d: Seq<char>) -> Option<int> {
    match spec_tag2(s, pos, a, b) {
        Some(e) => Some(e),
        None => spec_tag2(s, pos, c, d),
    }
}

fn tag2_at(s: &Vec<char>, pos: usize, a: &str, b: &str) -> (r: Option<usize>)
    requires
        pos <= s.len(),
    ensures
        match spec_tag2(s@, pos as int, a@, b@) {
            Some(e) => r == Some(e as usize) && pos <= e <= s.len(),
            None => r is None,
        },
{
    match tag_at(s, pos, a) {
        Some(e) => Some(e),
        None => tag_at(s, pos, b),
    }
}

fn tag4_at(s: &Vec<char>, pos: usize, a: &str, b: &str, c: &str, d: &str) -> (r: Option<usize>)
    requires
        pos <= s.len(),
    ensures
        match spec_tag4(s@, pos as int, a@, b@, c@, d@) {
            Some(e) => r == Some(e as usize) && pos <= e <= s.len(),
            None => r is None,
        },
{
    match tag2_at(s, pos, a, b) {
        Some(e) => Some(e),
        None => tag2_at(s, pos, c, d),
    }
}

/// A command parser's result is its spec twin's.
pub open spec fn lifted_command(r: Option<(Command, usize)>, sp: Option<(CommandView, int)>) -> bool {
    match sp {
        Some((cv, e)) => r matches Some((c, x)) && c.view() == cv && x == e,
        None => r is None,
    }
}

pub open spec fn spec_help(s: Seq<char>, pos: int) -> Option<(CommandView, int)> {
    match spec_tag2(s, pos, "help"@, "h"@) {
        Some(e) => Some((CommandView::Help, e)),
        None => None,
    }
}

pub open spec fn spec_roll_help(s: Seq<char>, pos: int) -> Option<(CommandView, int)> {
    match spec_tag4(s, pos, "roll-help"@, "roll_help"@, "roll help"@, "rh"@) {
        Some(e) => Some((CommandView::RollHelp, e)),
        None => None,
    }
}

pub open spec fn spec_info(s: Seq<char>, pos: int) -> Option<(CommandView, int)> {
    match spec_tag2(s, pos, "info"@, "i"@) {
        Some(e) => Some((CommandView::Info, e)),
        None => None,
    }
}

pub open spec fn spec_command_prefix(s: Seq<char>, pos: int) -> Option<(CommandView, int)> {
    match spec_tag4(s, pos, "command_prefix"@, "command-prefix"@, "command prefix"@, "cp"@) {
        Some(e) => {
            let a = spaces_end(s, e);
            match spec_tag2(s, a, "get"@, "g"@) {
                Some(g) => Some((CommandView::GetCommandPrefix, g)),
                None => match spec_tag2(s, a, "set"@, "s"@) {
                    Some(t) => {
                        let b = spaces_end(s, t);
                        let n = name_end(s, b);
                        if n > b {
                            Some((CommandView::SetCommandPrefix(s.subrange(b, n)), n))
                        } else {
                            None
                        }
                    },
                    None => None,
                },
            }
        },
        None => None,
    }
}

pub open spec fn spec_roll_prefix(s: Seq<char>, pos: int) -> Option<(CommandView, int)> {
    match spec_tag4(s, pos, "roll-prefix"@, "roll_prefix"@, "roll prefix"@, "rp"@) {
        Some(e) => {
            let a = spaces_end(s, e);
            match spec_tag2(s, a, "list"@, "l"@) {
                Some(l) => Some((CommandView::ListRollPrefix, l)),
                None => match spec_tag2(s, a, "add"@, "a"@) {
                    Some(t) => {
                        let b = spaces_end(s, t);
                        let n = name_end(s, b);
                        Some((CommandView::AddRollPrefix(s.subrange(b, n)), n))
                    },
                    None => match spec_tag2(s, a, "remove"@, "r"@) {
                        Some(t) => {
                            let b = spaces_end(s, t);
                            let n = name_end(s, b);
                            Some((CommandView::RemoveRollPrefix(s.subrange(b, n)), n))
                        },
                        None => None,
                    },
                },
            }
        },
        None => None,
    }
}

pub open spec fn spec_alias(s: Seq<char>, pos: int) -> Option<(CommandView, int)> {
    match spec_tag2(s, pos, "alias"@, "a"@) {
        Some(e) => {
            let a = spaces_end(s, e);
            let add = match spec_tag2(s, a, "add"@, "a"@) {
                Some(t) => {
                    let b = spaces_end(s, t);
                    let n = name_end(s, b);
                    let m = spaces_end(s, n);
                    if n > b && m > n {
                        match spec_labeled(s, m) {
                            Some((x, l, end)) => Some((CommandView::AddAlias(s.subrange(b, n), x, l), end)),
                            None => None,
                        }
                    } else {
                        None
                    }
                },
                None => None,
            };
            match add {
                Some(r) => Some(r),
                None => {
                    let remove = match spec_tag2(s, a, "remove"@, "r"@) {
                        Some(t) => {
                            let b = spaces_end(s, t);
                            let n = name_end(s, b);
                            if n > b {
                                Some((CommandView::RemoveAlias(s.subrange(b, n)), n))
                            } else {
                                None
                            }
                        },
                        None => None,
                    };
                    match remove {
                        Some(r) => Some(r),
                        None => match spec_tag2(s, a, "list"@, "l"@) {
                            Some(l) => Some((CommandView::ListAliases, l)),
                            None => None,
                        },
                    }
                },
            }
        },
        None => None,
    }
}

pub open spec fn spec_roll_info(s: Seq<char>, pos: int) -> Option<(CommandView, int)> {
    match spec_tag4(s, pos, "roll-info"@, "roll_info"@, "roll info"@, "ri"@) {
        Some(e) => {
            let a = spaces_end(s, e);
            match spec_tag2(s, a, "get"@, "g"@) {
                Some(g) => Some((CommandView::GetRollInfo, g)),
                None => match spec_tag2(s, a, "set"@, "s"@) {
                    Some(t) => {
                        let b = spaces_end(s, t);
                        match spec_tag2(s, b, "true"@, "t"@) {
                            Some(x) => Some((CommandView::SetRollInfo(true), x)),
                            None => match spec_tag(s, b, "1"@) {
                                Some(x) => Some((CommandView::SetRollInfo(true), x)),
                                None => match spec_tag2(s, b, "false"@, "f"@) {
                                    Some(x) => Some((CommandView::SetRollInfo(false), x)),
                                    None => match spec_tag(s, b, "0"@) {
                                        Some(x) => Some((CommandView::SetRollInfo(false), x)),
                                        None => None,
                                    },
                                },
                            },
                        }
                    },
                    None => None,
                },
            }
        },
        None => None,
    }
}

pub open spec fn spec_roll_command(s: Seq<char>, pos: int) -> Option<(CommandView, int)> {
    match spec_tag2(s, pos, "roll"@, "r"@) {
        Some(e) => match spec_labeled(s, spaces_end(s, e)) {
            Some((x, l, end)) => Some((CommandView::Roll(x, l), end)),
            None => None,
        },
        None => None,
    }
}

/// The first sub-command that matches at `pos`.
pub open spec fn spec_subcommand(s: Seq<char>, pos: int) -> Option<(CommandView, int)> {
    if spec_help(s, pos) is Some {
        spec_help(s, pos)
    } else if spec_roll_help(s, pos) is Some {
        spec_roll_help(s, pos)
    } else if spec_info(s, pos) is Some {
        spec_info(s, pos)
    } else if spec_command_prefix(s, pos) is Some {
        spec_command_prefix(s, pos)
    } else if spec_roll_prefix(s, pos) is Some {
        spec_roll_prefix(s, pos)
    } else if spec_alias(s, pos) is Some {
        spec_alias(s, pos)
    } else if spec_roll_info(s, pos) is Some {
        spec_roll_info(s, pos)
    } else {
        spec_roll_command(s, pos)
    }
}

/// A message that starts with the command prefix: the sub-command that
/// follows, when it is all that follows; otherwise help.
pub open spec fn spec_command(s: Seq<char>, prefix: Seq<char>) -> Option<(CommandView, int)> {
    match spec_literal(s, 0, prefix) {
        Some(p) => match spec_subcommand(s, spaces_end(s, p)) {
            Some((c, e)) => if spaces_end(s, e) == s.len() {
                Some((c, s.len() as int))
            } else {
                Some((CommandView::Help, p))
            },
            None => Some((CommandView::Help, p)),
        },
        None => None,
    }
}

/// A message that starts with a roll prefix and is an expression otherwise.
pub open spec fn spec_prefixed_roll(s: Seq<char>, prefix: Seq<char>) -> Option<(CommandView, int)> {
    match spec_literal(s, 0, prefix) {
        Some(p) => match spec_labeled(s, spaces_end(s, p)) {
            Some((x, l, end)) => if spaces_end(s, end) == s.len() {
                Some((CommandView::Roll(x, l), s.len() as int))
            } else {
                None
            },
            None => None,
        },
        None => None,
    }
}

fn p_help(s: &Vec<char>, pos: usize) -> (r: Option<(Command, usize)>)
    requires
        pos <= s.len(),
    ensures
        lifted_command(r, spec_help(s@, pos as int)),
        r matches Some((_, e)) ==> e <= s.len(),
{
    match tag2_at(s, pos, "help", "h") {
        Some(e) => Some((Command::Help, e)),
        None => None,
    }
}

fn p_roll_help(s: &Vec<char>, pos: usize) -> (r: Option<(Command, usize)>)
    requires
        pos <= s.len(),
    ensures
        lifted_command(r, spec_roll_help(s@, pos as int)),
        r matches Some((_, e)) ==> e <= s.len(),
{
    match tag4_at(s, pos, "roll-help", "roll_help", "roll help", "rh") {
        Some(e) => Some((Command::RollHelp, e)),
        None => None,
    }
}

fn p_info(s: &Vec<char>, pos: usize) -> (r: Option<(Command, usize)>)
    requires
        pos <= s.len(),
    ensures
        lifted_command(r, spec_info(s@, pos as int)),
        r matches Some((_, e)) ==> e <= s.len(),
{
    match tag2_at(s, pos, "info", "i") {
        Some(e) => Some((Command::Info, e)),
        None => None,
    }
}

fn p_command_prefix(s: &Vec<char>, pos: usize) -> (r: Option<(Command, usize)>)
    requires
        pos <= s.len(),
    ensures
        lifted_command(r, spec_command_prefix(s@, pos as int)),
        r matches Some((_, e)) ==> e <= s.len(),
{
    match tag4_at(s, pos, "command_prefix", "command-prefix", "command prefix", "cp") {
        Some(e) => {
            let a = skip_spaces(s, e);
            match tag2_at(s, a, "get", "g") {
                Some(g) => Some((Command::GetCommandPrefix, g)),
                None => match tag2_at(s, a, "set", "s") {
                    Some(t) => {
                        let b = skip_spaces(s, t);
                        let n = skip_name(s, b);
                        if n > b {
                            Some((Command::SetCommandPrefix(copy_chars(s, b, n)), n))
                        } else {
                            None
                        }
                    },
                    None => None,
                },
            }
        },
        None => None,
    }
}

fn p_roll_prefix(s: &Vec<char>, pos: usize) -> (r: Option<(Command, usize)>)
    requires
        pos <= s.len(),
    ensures
        lifted_command(r, spec_roll_prefix(s@, pos as int)),
        r matches Some((_, e)) ==> e <= s.len(),
{
    match tag4_at(s, pos, "roll-prefix", "roll_prefix", "roll prefix", "rp") {
        Some(e) => {
            let a = skip_spaces(s, e);
            match tag2_at(s, a, "list", "l") {
                Some(l) => Some((Command::ListRollPrefix, l)),
                None => match tag2_at(s, a, "add", "a") {
                    Some(t) => {
                        let b = skip_spaces(s, t);
                        let n = skip_name(s, b);
                        Some((Command::AddRollPrefix(copy_chars(s, b, n)), n))
                    },
                    None => match tag2_at(s, a, "remove", "r") {
                        Some(t) => {
                            let b = skip_spaces(s, t);
                            let n = skip_name(s, b);
                            Some((Command::RemoveRollPrefix(copy_chars(s, b, n)), n))
                        },
                        None => None,
                    },
                },
            }
        },
        None => None,
    }
}

fn p_alias(s: &Vec<char>, pos: usize) -> (r: Option<(Command, usize)>)
    requires
        pos <= s.len(),
    ensures
        lifted_command(r, spec_alias(s@, pos as int)),
        r matches Some((_, e)) ==> e <= s.len(),
{
    match tag2_at(s, pos, "alias", "a") {
        Some(e) => {
            let a = skip_spaces(s, e);
            if let Some(t) = tag2_at(s, a, "add", "a") {
                let b = skip_spaces(s, t);
                let n = skip_name(s, b);
                let m = skip_spaces(s, n);
                if n > b && m > n {
                    if let Some((x, end)) = p_labeled(s, m) {
                        return Some((Command::AddAlias(copy_chars(s, b, n), VersionedRollExpr::V2(x)), end));
                    }
                }
            }
            if let Some(t) = tag2_at(s, a, "remove", "r") {
                let b = skip_spaces(s, t);
                let n = skip_name(s, b);
                if n > b {
                    return Some((Command::RemoveAlias(copy_chars(s, b, n)), n));
                }
            }
            match tag2_at(s, a, "list", "l") {
                Some(l) => Some((Command::ListAliases, l)),
                None => None,
            }
        },
        None => None,
    }
}

fn p_roll_info(s: &Vec<char>, pos: usize) -> (r: Option<(Command, usize)>)
    requires
        pos <= s.len(),
    ensures
        lifted_command(r, spec_roll_info(s@, pos as int)),
        r matches Some((_, e)) ==> e <= s.len(),
{
    match tag4_at(s, pos, "roll-info", "roll_info", "roll info", "ri") {
        Some(e) => {
            let a = skip_spaces(s, e);
            match tag2_at(s, a, "get", "g") {
                Some(g) => Some((Command::GetRollInfo, g)),
                None => match tag2_at(s, a, "set", "s") {
                    Some(t) => {
                        let b = skip_spaces(s, t);
                        match tag2_at(s, b, "true", "t") {
                            Some(x) => Some((Command::SetRollInfo(true), x)),
                            None => match tag_at(s, b, "1") {
                                Some(x) => Some((Command::SetRollInfo(true), x)),
                                None => match tag2_at(s, b, "false", "f") {
                                    Some(x) => Some((Command::SetRollInfo(false), x)),
                                    None => match tag_at(s, b, "0") {
                                        Some(x) => Some((Command::SetRollInfo(false), x)),
                                        None => None,
                                    },
                                },
                            },
                        }
                    },
                    None => None,
                },
            }
        },
        None => None,
    }
}

fn p_roll_command(s: &Vec<char>, pos: usize) -> (r: Option<(Command, usize)>)
    requires
        pos <= s.len(),
    ensures
        lifted_command(r, spec_roll_command(s@, pos as int)),
        r matches Some((_, e)) ==> e <= s.len(),
{
    match tag2_at(s, pos, "roll", "r") {
        Some(e) => {
            let a = skip_spaces(s, e);
            match p_labeled(s, a) {
                Some((x, end)) => Some((Command::Roll(VersionedRollExpr::V2(x)), end)),
                None => None,
            }
        },
        None => None,
    }
}

fn p_subcommand(s: &Vec<char>, pos: usize) -> (r: Option<(Command, usize)>)
    requires
        pos <= s.len(),
    ensures
        lifted_command(r, spec_subcommand(s@, pos as int)),
        r matches Some((_, e)) ==> e <= s.len(),
{
    if let Some(c) = p_help(s, pos) {
        return Some(c);
    }
    if let Some(c) = p_roll_help(s, pos) {
        return Some(c);
    }
    if let Some(c) = p_info(s, pos) {
        return Some(c);
    }
    if let Some(c) = p_command_prefix(s, pos) {
        return Some(c);
    }
    if let Some(c) = p_roll_prefix(s, pos) {
        return Some(c);
    }
    if let Some(c) = p_alias(s, pos) {
        return Some(c);
    }
    if let Some(c) = p_roll_info(s, pos) {
        return Some(c);
    }
    p_roll_command(s, pos)
}

fn p_command(s: &Vec<char>, prefix: &Vec<char>) -> (r: Option<(Command, usize)>)
    ensures
        lifted_command(r, spec_command(s@, prefix@)),
        r matches Some((_, e)) ==> e <= s.len(),
{
    match literal_at(s, 0, prefix) {
        Some(p) => {
            let a = skip_spaces(s, p);
            match p_subcommand(s, a) {
                Some((c, e)) => {
                    if skip_spaces(s, e) == s.len() {
                        Some((c, s.len()))
                    } else {
                        Some((Command::Help, p))
                    }
                },
                None => Some((Command::Help, p)),
            }
        },
        None => None,
    }
}

fn p_prefixed_roll(s: &Vec<char>, prefix: &Vec<char>) -> (r: Option<(Command, usize)>)
    ensures
        lifted_command(r, spec_prefixed_roll(s@, prefix@)),
{
    match literal_at(s, 0, prefix) {
        Some(p) => {
            let a = skip_spaces(s, p);
            match p_labeled(s, a) {
                Some((x, end)) => {
                    if skip_spaces(s, end) == s.len() {
                        Some((Command::Roll(VersionedRollExpr::V2(x)), s.len()))
                    } else {
                        None
                    }
                },
                None => None,
            }
        },
        None => None,
    }
}

/// Parses a message that starts with the command prefix.
pub fn parse_command<'a>(input: &'a str, prefix: &str) -> (r: Result<(&'a str, Command), ParseError>)
    ensures
        match spec_command(input@, prefix@) {
            Some((cv, e)) => r matches Ok((rest, c)) && c.view() == cv && rest@ == input@.skip(e),
            None => r is Err,
        },
{
    let chars = chars_of(input);
    let p = chars_of(prefix);
    match p_command(&chars, &p) {
        Some((c, end)) => {
            assert(input@.skip(end as int) =~= input@.subrange(end as int, chars.len() as int));
            Ok((input.substring_char(end, chars.len()), c))
        },
        None => Err(ParseError),
    }
}

/// Parses a message that starts with a roll prefix.
pub fn parse_roll<'a>(input: &'a str, prefix: &str) -> (r: Result<(&'a str, Command), ParseError>)
    ensures
        match spec_prefixed_roll(input@, prefix@) {
            Some((cv, e)) => r matches Ok((rest, c)) && c.view() == cv && rest@ == input@.skip(e),
            None => r is Err,
        },
{
    let chars = chars_of(input);
    let p = chars_of(prefix);
    match p_prefixed_roll(&chars, &p) {
        Some((c, end)) => {
            assert(input@.skip(end as int) =~= Seq::<char>::empty());
            Ok((input.substring_char(end, chars.len()), c))
        },
        None => Err(ParseError),
    }
}

/// First `$` at or after `pos`, or the end.
pub open spec fn dollar_at(s: Seq<char>, pos: int) -> int
    decreases s.len() - pos,
{
    if 0 <= pos < s.len() && s[pos] != '$' {
        dollar_at(s, pos + 1)
    } else {
        pos
    }
}

/// The names written as `$name` from `pos` on, up to the first `$` that is
/// not followed by a name.
pub open spec fn spec_alias_names(s: Seq<char>, pos: int) -> Seq<Seq<char>>
    decreases s.len() - pos,
{
    if !(0 <= pos <= s.len()) {
        Seq::empty()
    } else {
        let d = dollar_at(s, pos);
        if d < s.len() {
            let n = name_end(s, d + 1);
            if d + 1 < n <= s.len() && n > pos {
                seq![s.subrange(d + 1, n)] + spec_alias_names(s, n)
            } else {
                Seq::empty()
            }
        } else {
            Seq::empty()
        }
    }
}

/// Start of `s` without leading whitespace.
pub open spec fn lead_end(s: Seq<char>, pos: int) -> int
    decreases s.len() - pos,
{
    if 0 <= pos < s.len() && unicode_whitespace(s[pos]) {
        lead_end(s, pos + 1)
    } else {
        pos
    }
}

/// End of `s` without trailing whitespace, not before `lo`.
pub open spec fn trail_start(s: Seq<char>, lo: int, end: int) -> int
    decreases end - lo,
{
    if lo < end <= s.len() && unicode_whitespace(s[end - 1]) {
        trail_start(s, lo, end - 1)
    } else {
        end
    }
}

/// `s` without leading and trailing whitespace.
pub open spec fn trimmed(s: Seq<char>) -> Seq<char> {
    let lo = lead_end(s, 0);
    s.subrange(lo, trail_start(s, lo, s.len() as int))
}

/// The alias names a message may refer to: each `$name` in it, in order, and
/// the whole message without surrounding whitespace.
pub open spec fn alias_candidates_of(s: Seq<char>) -> Seq<Seq<char>> {
    spec_alias_names(s, 0).push(trimmed(s))
}

fn skip_to_dollar(s: &Vec<char>, pos: usize) -> (r: usize)
    requires
        pos <= s.len(),
    ensures
        r == dollar_at(s@, pos as int),
        pos <= r <= s.len(),
    decreases s.len() - pos,
{
    if pos < s.len() && s[pos] != '$' {
        skip_to_dollar(s, pos + 1)
    } else {
        pos
    }
}

fn alias_names_from(s: &Vec<char>, pos: usize, out: &mut Vec<String>)
    requires
        pos <= s.len(),
    ensures
        strings_view(final(out)@) == strings_view(old(out)@) + spec_alias_names(s@, pos as int),
    decreases s.len() - pos,
{
    let d = skip_to_dollar(s, pos);
    if d < s.len() {
        let n = skip_name(s, d + 1);
        if d + 1 < n && n > pos {
            let ghost before = strings_view(out@);
            let name = copy_chars(s, d + 1, n);
            out.push(name);
            assert(strings_view(out@) =~= before.push(s@.subrange(d + 1int, n as int)));
            alias_names_from(s, n, out);
            assert(strings_view(final(out)@) =~= strings_view(old(out)@) + spec_alias_names(s@, pos as int));
        } else {
            assert(strings_view(out@) =~= strings_view(out@) + Seq::<Seq<char>>::empty());
        }
    } else {
        assert(strings_view(out@) =~= strings_view(out@) + Seq::<Seq<char>>::empty());
    }
}

/// The names written as `$name` in a message, in order.
pub fn parse_extra_aliases(input: &str) -> (r: Vec<String>)
    ensures
        strings_view(r@) == spec_alias_names(input@, 0),
{
    let chars = chars_of(input);
    let mut out: Vec<String> = Vec::new();
    alias_names_from(&chars, 0, &mut out);
    assert(strings_view(Seq::<String>::empty()) =~= Seq::<Seq<char>>::empty());
    assert(Seq::<Seq<char>>::empty() + spec_alias_names(input@, 0) =~= spec_alias_names(input@, 0));
    out
}

fn skip_lead(s: &Vec<char>, pos: usize) -> (r: usize)
    requires
        pos <= s.len(),
    ensures
        r == lead_end(s@, pos as int),
        pos <= r <= s.len(),
    decreases s.len() - pos,
{
    if pos < s.len() && is_whitespace(s[pos]) {
        skip_lead(s, pos + 1)
    } else {
        pos
    }
}

fn find_trail(s: &Vec<char>, lo: usize, end: usize) -> (r: usize)
    requires
        lo <= end <= s.len(),
    ensures
        r == trail_start(s@, lo as int, end as int),
        lo <= r <= end,
    decreases end - lo,
{
    if lo < end && is_whitespace(s[end - 1]) {
        find_trail(s, lo, end - 1)
    } else {
        end
    }
}

/// The alias names to look up for a message: every `$name`, then the whole
/// message without surrounding whitespace.
pub fn alias_candidates(input: &str) -> (r: Vec<String>)
    ensures
        strings_view(r@) == alias_candidates_of(input@),
{
    let chars = chars_of(input);
    let mut out = parse_extra_aliases(input);
    let lo = skip_lead(&chars, 0);
    let hi = find_trail(&chars, lo, chars.len());
    let ghost before = strings_view(out@);
    out.push(copy_chars(&chars, lo, hi));
    assert(strings_view(out@) =~= before.push(trimmed(input@)));
    out
}

/// The first roll prefix under which the message is a roll.
pub open spec fn first_prefixed_roll(s: Seq<char>, prefixes: Seq<Seq<char>>) -> Option<CommandView>
    decreases prefixes.len(),
{
    if prefixes.len() == 0 {
        None
    } else {
        match spec_prefixed_roll(s, prefixes[0]) {
            Some((c, _)) => Some(c),
            None => first_prefixed_roll(s, prefixes.drop_first()),
        }
    }
}

/// The command of a message, given what storage holds for its tenant: a
/// command under the command prefix; else a roll under the first roll prefix
/// that gives one; else a roll of the aliases found; else nothing.
pub open spec fn spec_choose(s: Seq<char>, command_prefix: Seq<char>, roll_prefixes: Seq<Seq<char>>, aliases: Seq<VersionedRollExpr>) -> Option<CommandView> {
    match spec_command(s, command_prefix) {
        Some((c, _)) => Some(c),
        None => match first_prefixed_roll(s, roll_prefixes) {
            Some(c) => Some(c),
            None => if aliases.len() > 0 {
                Some(CommandView::AliasRoll(aliases))
            } else {
                None
            },
        },
    }
}

fn first_roll(chars: &Vec<char>, prefixes: &Vec<String>) -> (r: Option<Command>)
    ensures
        match first_prefixed_roll(chars@, strings_view(prefixes@)) {
            Some(cv) => r matches Some(c) && c.view() == cv,
            None => r is None,
        },
{
    let mut i: usize = 0;
    let ghost all = strings_view(prefixes@);
    assert(all.skip(0) =~= all);
    while i < prefixes.len()
        invariant
            i <= prefixes.len(),
            all == strings_view(prefixes@),
            first_prefixed_roll(chars@, all) == first_prefixed_roll(chars@, all.skip(i as int)),
        decreases prefixes.len() - i,
    {
        assert(all.skip(i as int).drop_first() =~= all.skip(i + 1int));
        assert(all.skip(i as int)[0] == prefixes[i as int]@);
        let p = chars_of(prefixes[i].as_str());
        if let Some((c, _)) = p_prefixed_roll(chars, &p) {
            return Some(c);
        }
        i = i + 1;
    }
    None
}

/// The command of a message, with the tenant's command prefix and verbosity
/// flag; `bundle` is what storage answered for the message's alias
/// candidates.
pub fn parse(input: &str, bundle: Bundle) -> (r: Option<(Command, String, bool)>)
    ensures
        match spec_choose(
            input@,
            bundle.command_prefix@,
            strings_view(bundle.roll_prefixes@),
            bundle.aliases@,
        ) {
            Some(cv) => r matches Some((c, p, v)) && c.view() == cv && p@ == bundle.command_prefix@
                && v == bundle.roll_info,
            None => r is None,
        },
{
    let chars = chars_of(input);
    let prefix = chars_of(bundle.command_prefix.as_str());
    let found = match p_command(&chars, &prefix) {
        Some((c, _)) => Some(c),
        None => {
            let hit = first_roll(&chars, &bundle.roll_prefixes);
            match hit {
                Some(c) => Some(c),
                None => {
                    if bundle.aliases.len() > 0 {
                        Some(Command::AliasRoll(bundle.aliases))
                    } else {
                        None
                    }
                },
            }
        },
    };
    match found {
        Some(c) => Some((c, bundle.command_prefix, bundle.roll_info)),
        None => None,
    }
}

} // verus!
