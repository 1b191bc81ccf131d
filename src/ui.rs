//! Status lines for the operator: a marker, then the message in colour.

use owo_colors::OwoColorize;
use vstd::prelude::*;

verus! {

/// Relies on `owo_colors::OwoColorize::green` and its `Display`: the style's escape, the text, then the reset escape.
#[verifier::external_body]
fn paint_green(message: &str) -> (r: String)
    ensures
        r@ == "\x1b[32m"@ + message@ + "\x1b[39m"@,
{
    format!("{}", message.green())
}

/// A line reporting success.
pub fn success(message: &str) -> (r: String)
    ensures
        r@ == "✅ "@ + "\x1b[32m"@ + message@ + "\x1b[39m"@,
{
    let mut s = String::from_str("✅ ");
    let painted = paint_green(message);
    s.append(painted.as_str());
    s
}

/// Relies on `owo_colors::OwoColorize::blue` and its `Display`: the style's escape, the text, then the reset escape.
#[verifier::external_body]
fn paint_blue(message: &str) -> (r: String)
    ensures
        r@ == "\x1b[34m"@ + message@ + "\x1b[39m"@,
{
    format!("{}", message.blue())
}

/// An informational line.
pub fn info(message: &str) -> (r: String)
    ensures
        r@ == "ℹ️ "@ + "\x1b[34m"@ + message@ + "\x1b[39m"@,
{
    let mut s = String::from_str("ℹ️ ");
    let painted = paint_blue(message);
    s.append(painted.as_str());
    s
}

/// Relies on `owo_colors::OwoColorize::yellow` and its `Display`: the style's escape, the text, then the reset escape.
#[verifier::external_body]
fn paint_yellow(message: &str) -> (r: String)
    ensures
        r@ == "\x1b[33m"@ + message@ + "\x1b[39m"@,
{
    format!("{}", message.yellow())
}

/// A warning line.
pub fn warn(message: &str) -> (r: String)
    ensures
        r@ == "⚠️ "@ + "\x1b[33m"@ + message@ + "\x1b[39m"@,
{
    let mut s = String::from_str("⚠️ ");
    let painted = paint_yellow(message);
    s.append(painted.as_str());
    s
}

/// Relies on `owo_colors::OwoColorize::cyan` and its `Display`: the style's escape, the text, then the reset escape.
#[verifier::external_body]
fn paint_cyan(message: &str) -> (r: String)
    ensures
        r@ == "\x1b[36m"@ + message@ + "\x1b[39m"@,
{
    format!("{}", message.cyan())
}

/// A line announcing an action.
pub fn action(message: &str) -> (r: String)
    ensures
        r@ == "🔍 "@ + "\x1b[36m"@ + message@ + "\x1b[39m"@,
{
    let mut s = String::from_str("🔍 ");
    let painted = paint_cyan(message);
    s.append(painted.as_str());
    s
}

/// Relies on `owo_colors::OwoColorize::dimmed` and its `Display`: the style's escape, the text, then the reset escape.
#[verifier::external_body]
fn paint_dimmed(message: &str) -> (r: String)
    ensures
        r@ == "\x1b[2m"@ + message@ + "\x1b[0m"@,
{
    format!("{}", message.dimmed())
}

/// A hint line.
pub fn hint(message: &str) -> (r: String)
    ensures
        r@ == "› "@ + "\x1b[2m"@ + message@ + "\x1b[0m"@,
{
    let mut s = String::from_str("› ");
    let painted = paint_dimmed(message);
    s.append(painted.as_str());
    s
}

} // verus!
