//! The decision of the terminal chart menu: what a line typed at its prompt asks for.
use vstd::prelude::*;

use crate::text::{decimal, is_white_space, lemma_parse_decimal, parse_u32, parse_unsigned, trim, trimmed};
use crate::view::{view_from_number, view_number, View};
use vstd::view::View as _;

verus! {

/// What a line typed at the menu prompt asks for.
#[derive(Clone, Copy, PartialEq, Eq, Debug, Structural)]
pub enum MenuAction {
    /// Leave the menu.
    Quit,
    /// Open every chart.
    OpenAll,
    /// Open one chart.
    Open(View),
    /// The line is neither a chart number nor `q`.
    Invalid,
}

/// The action a line asks for. Surrounding whitespace is ignored; an empty
/// line or `q` (either case) quits; `0` opens every chart; `1` to `6` open that
/// chart; anything else is invalid.
pub open spec fn menu_action_of(line: Seq<char>) -> MenuAction {
    let t = trimmed(line);
    if t.len() == 0 || t == "q"@ || t == "Q"@ {
        MenuAction::Quit
    } else {
        match parse_unsigned(t, u32::MAX as nat) {
            Some(n) => if n == 0 {
                MenuAction::OpenAll
            } else if 1 <= n <= 6 {
                MenuAction::Open(view_from_number(n as u32))
            } else {
                MenuAction::Invalid
            },
            None => MenuAction::Invalid,
        }
    }
}

/// The action a line typed at the menu prompt asks for.
pub fn menu_choice(line: &str) -> (r: MenuAction)
    ensures
        r == menu_action_of(line@),
{
    let t = trim(line);
    let lower_q = String::from_str("q");
    let upper_q = String::from_str("Q");
    if t.as_str().unicode_len() == 0 || t == lower_q || t == upper_q {
        return MenuAction::Quit;
    }
    match parse_u32(t.as_str()) {
        Some(n) => {
            if n == 0 {
                MenuAction::OpenAll
            } else if 1 <= n && n <= 6 {
                MenuAction::Open(View::from(n))
            } else {
                MenuAction::Invalid
            }
        },
        None => MenuAction::Invalid,
    }
}


/// Typing a number at the menu: `0` opens every chart, each number `1` to `6`
/// opens the chart listed under that number, and every larger number is
/// invalid. Whitespace around the number makes no difference.
pub proof fn lemma_menu_numbers(n: nat, before: Seq<char>, after: Seq<char>)
    requires
        n <= u32::MAX,
        forall|i: int| 0 <= i < before.len() ==> is_white_space(#[trigger] before[i]),
        forall|i: int| 0 <= i < after.len() ==> is_white_space(#[trigger] after[i]),
    ensures
        n == 0 ==> menu_action_of(before + decimal(n) + after) == MenuAction::OpenAll,
        1 <= n <= 6 ==> (menu_action_of(before + decimal(n) + after) matches MenuAction::Open(v)
            && view_number(v) == n),
        n > 6 ==> menu_action_of(before + decimal(n) + after) == MenuAction::Invalid,
{
    lemma_parse_decimal(n, u32::MAX as nat);
    crate::text::lemma_decimal_digits(n);
    let d = decimal(n);
    lemma_trim_padded(before, d, after);
    reveal_strlit("q");
    reveal_strlit("Q");
    assert(d[0] != 'q' && d[0] != 'Q');
    assert(d != "q"@);
    assert(d != "Q"@);
}

/// A line made of leading whitespace, a text that neither begins nor ends with
/// whitespace, and trailing whitespace trims to that text.
proof fn lemma_trim_padded(before: Seq<char>, t: Seq<char>, after: Seq<char>)
    requires
        t.len() > 0,
        !is_white_space(t[0]),
        !is_white_space(t.last()),
        forall|i: int| 0 <= i < before.len() ==> is_white_space(#[trigger] before[i]),
        forall|i: int| 0 <= i < after.len() ==> is_white_space(#[trigger] after[i]),
    ensures
        trimmed(before + t + after) == t,
{
    lemma_trim_start_prefix(before, t + after);
    assert(before + t + after =~= before + (t + after));
    lemma_trim_end_suffix(t, after);
}

proof fn lemma_trim_start_prefix(before: Seq<char>, rest: Seq<char>)
    requires
        rest.len() > 0,
        !is_white_space(rest[0]),
        forall|i: int| 0 <= i < before.len() ==> is_white_space(#[trigger] before[i]),
    ensures
        crate::text::trim_start(before + rest) == rest,
    decreases before.len(),
{
    if before.len() > 0 {
        assert((before + rest).drop_first() =~= before.drop_first() + rest);
        assert((before + rest)[0] == before[0]);
        assert forall|i: int| 0 <= i < before.drop_first().len() implies is_white_space(
            #[trigger] before.drop_first()[i],
        ) by {
            assert(before.drop_first()[i] == before[i + 1]);
        }
        lemma_trim_start_prefix(before.drop_first(), rest);
    } else {
        assert(before + rest =~= rest);
    }
}

proof fn lemma_trim_end_suffix(t: Seq<char>, after: Seq<char>)
    requires
        t.len() > 0,
        !is_white_space(t.last()),
        forall|i: int| 0 <= i < after.len() ==> is_white_space(#[trigger] after[i]),
    ensures
        crate::text::trim_end(t + after) == t,
    decreases after.len(),
{
    if after.len() > 0 {
        assert((t + after).drop_last() =~= t + after.drop_last());
        assert((t + after).last() == after.last());
        assert forall|i: int| 0 <= i < after.drop_last().len() implies is_white_space(
            #[trigger] after.drop_last()[i],
        ) by {
            assert(after.drop_last()[i] == after[i]);
        }
        lemma_trim_end_suffix(t, after.drop_last());
    } else {
        assert(t + after =~= t);
    }
}


/// A blank line, or `q` or `Q` alone (whitespace around it allowed), quits the menu.
pub proof fn lemma_menu_quits(before: Seq<char>, after: Seq<char>)
    requires
        forall|i: int| 0 <= i < before.len() ==> is_white_space(#[trigger] before[i]),
        forall|i: int| 0 <= i < after.len() ==> is_white_space(#[trigger] after[i]),
    ensures
        menu_action_of(before + "q"@ + after) == MenuAction::Quit,
        menu_action_of(before + "Q"@ + after) == MenuAction::Quit,
        menu_action_of(before + after) == MenuAction::Quit,
{
    reveal_strlit("q");
    reveal_strlit("Q");
    lemma_trim_padded(before, "q"@, after);
    lemma_trim_padded(before, "Q"@, after);
    let line = before + after;
    assert forall|i: int| 0 <= i < line.len() implies is_white_space(#[trigger] line[i]) by {
        if i >= before.len() {
            assert(line[i] == after[i - before.len()]);
        }
    }
    lemma_trim_all_white(line);
}

proof fn lemma_trim_all_white(s: Seq<char>)
    requires
        forall|i: int| 0 <= i < s.len() ==> is_white_space(#[trigger] s[i]),
    ensures
        trimmed(s).len() == 0,
    decreases s.len(),
{
    if s.len() > 0 {
        assert forall|i: int| 0 <= i < s.drop_first().len() implies is_white_space(
            #[trigger] s.drop_first()[i],
        ) by {
            assert(s.drop_first()[i] == s[i + 1]);
        }
        lemma_trim_all_white(s.drop_first());
        assert(crate::text::trim_start(s) == crate::text::trim_start(s.drop_first()));
    }
}

} // verus!
