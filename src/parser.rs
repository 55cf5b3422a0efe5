//! The grammar of substitution commands:
//!
//! ```text
//! command    := "s" "/" from "/" to terminator
//! from, to   := any characters but "/"
//! terminator := "" | "/" | "/g"
//! ```
//!
//! `s//g` has no third delimiter, so it reads as an empty pattern replaced by
//! `g`, first match only. A global command with an empty replacement is
//! written `s///g`.
use vstd::prelude::*;
use vstd::string::*;

use crate::sed_command::SedCommand;

verus! {

/// Why a text is not a substitution command.
#[derive(Debug, Clone, Copy, PartialEq, Eq)]
pub enum ParseError {
    /// The text does not follow the grammar.
    Malformed,
}

/// No delimiter in `s`.
pub open spec fn no_slash(s: Seq<char>) -> bool {
    forall|k: int| 0 <= k < s.len() ==> s[k] != '/'
}

/// `s/FROM/TO`, without a terminator.
pub open spec fn command_head(from: Seq<char>, to: Seq<char>) -> Seq<char> {
    seq!['s', '/'] + from + seq!['/'] + to
}

/// `text` is a command that replaces `from` by `to`, globally or not.
pub open spec fn spells(text: Seq<char>, from: Seq<char>, to: Seq<char>, is_global: bool) -> bool {
    &&& no_slash(from)
    &&& no_slash(to)
    &&& if is_global {
        text == command_head(from, to) + seq!['/', 'g']
    } else {
        text == command_head(from, to) || text == command_head(from, to) + seq!['/']
    }
}

/// `text` is a command at all.
pub open spec fn is_command(text: Seq<char>) -> bool {
    exists|from: Seq<char>, to: Seq<char>, is_global: bool| spells(text, from, to, is_global)
}

/// Where the parts of a command stand in its text.
proof fn lemma_layout(text: Seq<char>, from: Seq<char>, to: Seq<char>, is_global: bool)
    requires
        spells(text, from, to, is_global),
    ensures
        text.len() >= 3 + from.len() as int + to.len() as int,
        text[0] == 's',
        text[1] == '/',
        forall|k: int| 0 <= k < from.len() ==> text[2 + k] == from[k],
        text[2 + from.len() as int] == '/',
        forall|k: int| 0 <= k < to.len() ==> text[3 + from.len() as int + k] == to[k],
        ({
            let b = 3 + from.len() as int + to.len() as int;
            ||| text.len() == b && !is_global
            ||| text.len() == b + 1 && text[b] == '/' && !is_global
            ||| text.len() == b + 2 && text[b] == '/' && text[b + 1] == 'g' && is_global
        }),
{
    let head = command_head(from, to);
    assert(head.len() == 3 + from.len() as int + to.len() as int);
    assert forall|k: int| 0 <= k < from.len() implies head[2 + k] == from[k] by {}
    assert forall|k: int| 0 <= k < to.len() implies head[3 + from.len() as int + k] == to[k] by {}
    assert(head[0] == 's' && head[1] == '/' && head[2 + from.len() as int] == '/');
}

/// A text is a command in at most one way: the pattern, the replacement and
/// the scope are determined by the text.
pub proof fn lemma_spelling_unique(
    text: Seq<char>,
    from1: Seq<char>,
    to1: Seq<char>,
    global1: bool,
    from2: Seq<char>,
    to2: Seq<char>,
    global2: bool,
)
    requires
        spells(text, from1, to1, global1),
        spells(text, from2, to2, global2),
    ensures
        from1 == from2,
        to1 == to2,
        global1 == global2,
{
    lemma_layout(text, from1, to1, global1);
    lemma_layout(text, from2, to2, global2);
    if from1.len() < from2.len() {
        assert(text[2 + from1.len() as int] == from2[from1.len() as int]);
    }
    if from2.len() < from1.len() {
        assert(text[2 + from2.len() as int] == from1[from2.len() as int]);
    }
    assert(from1 =~= from2);
    let a: int = 3 + from1.len() as int;
    if to1.len() < to2.len() {
        assert(text[a + to1.len() as int] == to2[to1.len() as int]);
    }
    if to2.len() < to1.len() {
        assert(text[a + to2.len() as int] == to1[to2.len() as int]);
    }
    assert(to1 =~= to2);
}

/// A trailing delimiter changes nothing: `s/FROM/TO` and `s/FROM/TO/` are the
/// same command, replacing the first match of `from` by `to`, and no other.
pub proof fn lemma_trailing_slash_optional(from: Seq<char>, to: Seq<char>)
    requires
        no_slash(from),
        no_slash(to),
    ensures
        spells(command_head(from, to), from, to, false),
        spells(command_head(from, to) + seq!['/'], from, to, false),
        forall|f: Seq<char>, t: Seq<char>, g: bool|
            spells(command_head(from, to), f, t, g) <==> spells(
                command_head(from, to) + seq!['/'],
                f,
                t,
                g,
            ),
{
    let bare = command_head(from, to);
    let slashed = command_head(from, to) + seq!['/'];
    assert forall|f: Seq<char>, t: Seq<char>, g: bool|
        spells(bare, f, t, g) <==> spells(slashed, f, t, g) by {
        if spells(bare, f, t, g) {
            lemma_spelling_unique(bare, f, t, g, from, to, false);
        }
        if spells(slashed, f, t, g) {
            lemma_spelling_unique(slashed, f, t, g, from, to, false);
        }
    }
}

/// Whether a text is a command does not depend on whether its pattern is a
/// valid regular expression: any pattern and replacement free of delimiters
/// make a command, in each scope.
pub proof fn lemma_any_pattern_parses(from: Seq<char>, to: Seq<char>)
    requires
        no_slash(from),
        no_slash(to),
    ensures
        is_command(command_head(from, to)),
        is_command(command_head(from, to) + seq!['/', 'g']),
{
    assert(spells(command_head(from, to), from, to, false));
    assert(spells(command_head(from, to) + seq!['/', 'g'], from, to, true));
}

/// The first delimiter in `s` at or after `start`, or the length of `s`.
fn find_slash(s: &str, start: usize, n: usize) -> (k: usize)
    requires
        n == s@.len(),
        start <= n,
    ensures
        start <= k <= n,
        forall|m: int| start <= m < k ==> s@[m] != '/',
        k < n ==> s@[k as int] == '/',
{
    let mut k: usize = start;
    while k < n
        invariant
            n == s@.len(),
            start <= k <= n,
            forall|m: int| start <= m < k ==> s@[m] != '/',
        decreases n - k,
    {
        if s.get_char(k) == '/' {
            return k;
        }
        k = k + 1;
    }
    k
}

/// Parses a whole text as a substitution command.
///
/// On success it returns the unconsumed input, which is always empty, and
/// the command, whose pattern and replacement borrow from `input`.
pub fn parse_sed_command<'a>(input: &'a str) -> (r: Result<(&'a str, SedCommand<'a>), ParseError>)
    ensures
        r is Ok <==> is_command(input@),
        r matches Ok((rest, cmd)) ==> rest@.len() == 0 && spells(
            input@,
            cmd.from@,
            cmd.to@,
            cmd.is_global,
        ),
{
    let ghost text = input@;
    let n = input.unicode_len();
    if n < 2 || input.get_char(0) != 's' || input.get_char(1) != '/' {
        proof {
            assert forall|f: Seq<char>, t: Seq<char>, g: bool| !spells(text, f, t, g) by {
                if spells(text, f, t, g) {
                    lemma_layout(text, f, t, g);
                }
            }
        }
        return Err(ParseError::Malformed);
    }
    let i = find_slash(input, 2, n);
    let j = if i < n {
        find_slash(input, i + 1, n)
    } else {
        n
    };
    // Which terminator follows the replacement, if a legal one does.
    let is_global: bool;
    if i < n && j == n {
        is_global = false;
    } else if i < n && j + 1 == n {
        is_global = false;
    } else if i < n && j + 2 == n && input.get_char(j + 1) == 'g' {
        is_global = true;
    } else {
        proof {
            assert forall|f: Seq<char>, t: Seq<char>, g: bool| !spells(text, f, t, g) by {
                if spells(text, f, t, g) {
                    lemma_layout(text, f, t, g);
                    assert(i == 2 + f.len() as int);
                    assert(j == 3 + f.len() as int + t.len() as int);
                }
            }
        }
        return Err(ParseError::Malformed);
    }
    let from = input.substring_char(2, i);
    let to = input.substring_char(i + 1, j);
    let rest = input.substring_char(n, n);
    proof {
        let head = command_head(from@, to@);
        assert(text.subrange(0, j as int) =~= head);
        if is_global {
            assert(text =~= head + seq!['/', 'g']);
        } else if j == n {
            assert(text =~= head);
        } else {
            assert(text =~= head + seq!['/']);
        }
        assert(spells(text, from@, to@, is_global));
    }
    Ok((rest, SedCommand { from, to, is_global }))
}

} // verus!
