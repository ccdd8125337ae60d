//! Display themes and count badges.
use crate::text::{decimal, decimal_chars, string_of};
use vstd::prelude::*;

verus! {

/// The colour scheme of the terminal output.
#[derive(Debug, Clone, Copy, PartialEq, Eq, Structural)]
pub enum ThemeType {
    Default,
    Dark,
    Monochrome,
}

/// The theme a `--theme` value names; anything unknown is the default.
pub open spec fn theme_of(name: Seq<char>) -> ThemeType {
    if name == "dark"@ {
        ThemeType::Dark
    } else if name == "monochrome"@ {
        ThemeType::Monochrome
    } else {
        ThemeType::Default
    }
}

/// The theme named `name`.
pub fn parse_theme_type(name: &str) -> (t: ThemeType)
    ensures
        t == theme_of(name@),
{
    if crate::text::str_eq(name, "dark") {
        ThemeType::Dark
    } else if crate::text::str_eq(name, "monochrome") {
        ThemeType::Monochrome
    } else {
        ThemeType::Default
    }
}

/// A count badge: `⭕` for none, a keycap digit below ten, `[n]` above.
pub open spec fn badge_text(count: nat) -> Seq<char> {
    if count == 0 {
        seq!['\u{2B55}']
    } else if count < 10 {
        decimal(count) + seq!['\u{FE0F}', '\u{20E3}']
    } else {
        seq!['['] + decimal(count) + seq![']']
    }
}

/// The badge for `count`.
pub fn badge(count: usize) -> (s: String)
    ensures
        s@ == badge_text(count as nat),
{
    if count == 0 {
        let v: Vec<char> = vec!['\u{2B55}'];
        assert(v@ =~= seq!['\u{2B55}']);
        string_of(&v)
    } else if count < 10 {
        let mut v = decimal_chars(count as u64);
        v.push('\u{FE0F}');
        v.push('\u{20E3}');
        assert(v@ =~= decimal(count as nat) + seq!['\u{FE0F}', '\u{20E3}']);
        string_of(&v)
    } else {
        let mut v: Vec<char> = vec!['['];
        let d = decimal_chars(count as u64);
        crate::text::push_all(&mut v, &d);
        v.push(']');
        assert(v@ =~= seq!['['] + decimal(count as nat) + seq![']']);
        string_of(&v)
    }
}

} // verus!
