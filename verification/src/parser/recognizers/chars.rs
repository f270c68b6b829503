//! Character classes used by the recognizers.
//!
//! Every executable predicate has a spec twin so that contracts can speak
//! about single characters of the input.

use vstd::prelude::*;

verus! {

/// An ASCII space.
pub open spec fn spec_is_space(c: char) -> bool {
    c == ' '
}

pub fn is_space(c: char) -> (r: bool)
    ensures
        r == spec_is_space(c),
{
    c == ' '
}

/// A full-width (ideographic) space.
pub open spec fn spec_is_zenkaku_space(c: char) -> bool {
    c == '\u{3000}'
}

pub fn is_zenkaku_space(c: char) -> (r: bool)
    ensures
        r == spec_is_zenkaku_space(c),
{
    c == '\u{3000}'
}

/// A horizontal tab.
pub open spec fn spec_is_tab(c: char) -> bool {
    c == '\t'
}

pub fn is_tab(c: char) -> (r: bool)
    ensures
        r == spec_is_tab(c),
{
    c == '\t'
}

/// The marker that opens an explicit ruby instruction: a vertical bar,
/// ASCII or full-width.
pub open spec fn spec_is_start_instruction(c: char) -> bool {
    c == '|' || c == '\u{ff5c}'
}

pub fn is_start_instruction(c: char) -> (r: bool)
    ensures
        r == spec_is_start_instruction(c),
{
    c == '|' || c == '\u{ff5c}'
}

/// An opening ruby delimiter: `(`, full-width `（`, `《`, or `⟪`.
pub open spec fn spec_is_start_ruby(c: char) -> bool {
    c == '(' || c == '\u{ff08}' || c == '\u{300a}' || c == '\u{27ea}'
}

pub fn is_start_ruby(c: char) -> (r: bool)
    ensures
        r == spec_is_start_ruby(c),
{
    c == '(' || c == '\u{ff08}' || c == '\u{300a}' || c == '\u{27ea}'
}

/// A closing ruby delimiter: `)`, full-width `）`, `》`, or `⟫`.
pub open spec fn spec_is_end_ruby(c: char) -> bool {
    c == ')' || c == '\u{ff09}' || c == '\u{300b}' || c == '\u{27eb}'
}

pub fn is_end_ruby(c: char) -> (r: bool)
    ensures
        r == spec_is_end_ruby(c),
{
    c == ')' || c == '\u{ff09}' || c == '\u{300b}' || c == '\u{27eb}'
}

/// A line-ending character: carriage return or line feed.
pub open spec fn spec_is_new_line_escape(c: char) -> bool {
    c == '\r' || c == '\n'
}

pub fn is_new_line_escape(c: char) -> (r: bool)
    ensures
        r == spec_is_new_line_escape(c),
{
    c == '\r' || c == '\n'
}

/// A line feed.
pub open spec fn spec_is_line_feed(c: char) -> bool {
    c == '\n'
}

pub fn is_line_feed(c: char) -> (r: bool)
    ensures
        r == spec_is_line_feed(c),
{
    c == '\n'
}

/// A carriage return.
pub open spec fn spec_is_caride_retrun(c: char) -> bool {
    c == '\r'
}

pub fn is_caride_retrun(c: char) -> (r: bool)
    ensures
        r == spec_is_caride_retrun(c),
{
    c == '\r'
}

/// An ideographic character, per the Unicode CJK ideograph blocks: the
/// unified block, the compatibility block, and extensions A through G.
pub open spec fn spec_is_kanji(c: char) -> bool {
    ||| (c as u32) >= 0x4e00 && (c as u32) <= 0x9ffc
    ||| (c as u32) >= 0xf900 && (c as u32) <= 0xfaff
    ||| (c as u32) >= 0x3400 && (c as u32) <= 0x4dbf
    ||| (c as u32) >= 0x20000 && (c as u32) <= 0x2a6dd
    ||| (c as u32) >= 0x2a700 && (c as u32) <= 0x2b734
    ||| (c as u32) >= 0x2b740 && (c as u32) <= 0x2b81d
    ||| (c as u32) >= 0x2b820 && (c as u32) <= 0x2cea1
    ||| (c as u32) >= 0x2ceb0 && (c as u32) <= 0x2ebe0
    ||| (c as u32) >= 0x30000 && (c as u32) <= 0x3134a
}

pub fn is_kanji(c: char) -> (r: bool)
    ensures
        r == spec_is_kanji(c),
{
    let u = c as u32;
    (u >= 0x4e00 && u <= 0x9ffc) || (u >= 0xf900 && u <= 0xfaff) || (u >= 0x3400 && u <= 0x4dbf)
        || (u >= 0x20000 && u <= 0x2a6dd) || (u >= 0x2a700 && u <= 0x2b734) || (u >= 0x2b740 && u
        <= 0x2b81d) || (u >= 0x2b820 && u <= 0x2cea1) || (u >= 0x2ceb0 && u <= 0x2ebe0) || (u
        >= 0x30000 && u <= 0x3134a)
}

/// An ideographic variation selector (U+E0100 through U+E01EF).
pub open spec fn spec_is_ideographic_variation_sequence(c: char) -> bool {
    (c as u32) >= 0xe0100 && (c as u32) <= 0xe01ef
}

pub fn is_ideographic_variation_sequence(c: char) -> (r: bool)
    ensures
        r == spec_is_ideographic_variation_sequence(c),
{
    let u = c as u32;
    u >= 0xe0100 && u <= 0xe01ef
}

} // verus!
